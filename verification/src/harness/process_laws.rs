//! How processes are started, recognised and measured.
use vstd::prelude::*;

use crate::bytes;
use crate::error::ErrorModel;
use crate::harness::collect::ScanModel;
use crate::harness::measure;
use crate::harness::measure::{Extent, MeasuredModel, PhaseModel, ReplyModel};
use crate::harness::probe;
use crate::harness::probe::{ProbeExpectation, ProbeModel, SummaryModel};
use crate::harness::process;
use crate::harness::process::{AncestryModel, AuthModel, FlagsModel, PeerCredentials};
use crate::harness::roles;
use crate::harness::roles::{AutoShimModel, EndModel, HelperModel, Mode, ModeFlags, OpenModel, Role};
use crate::harness::rules;
use crate::harness::scan::ExclusionModel;
use crate::harness::summary;
use crate::harness::summary::TimingSummary;
use crate::harness::FileId;
use crate::paths;
use crate::proxy::args;
use crate::text;
use crate::text_laws;

verus! {

// ---------------------------------------------------------------------------
// Keys and arguments
// ---------------------------------------------------------------------------

/// The key for a command has its letters in upper case, its digits as they are,
/// and underscores for all else, one for one.
pub proof fn law_key_suffix(command: Seq<char>)
    ensures
        process::key_suffix(command).len() == command.len(),
        forall|i: int|
            0 <= i < command.len() ==> {
                let c = command[i] as int;
                let k = #[trigger] process::key_suffix(command)[i] as int;
                &&& 97 <= c <= 122 ==> k == c - 32
                &&& 65 <= c <= 90 || 48 <= c <= 57 ==> k == c
                &&& !(97 <= c <= 122 || 65 <= c <= 90 || 48 <= c <= 57) ==> k == 95
            },
{
}

/// The flag and the path at a position of the values stand there.
pub open spec fn pair_at(
    arguments: Seq<Seq<char>>,
    flag: Seq<char>,
    values: Seq<Seq<u8>>,
    i: int,
) -> bool {
    arguments[2 * i] == flag && arguments[2 * i + 1] == paths::shown(values[i])
}

/// The arguments are the flag before every path, in their order.
pub open spec fn flag_before_each(
    arguments: Seq<Seq<char>>,
    flag: Seq<char>,
    values: Seq<Seq<u8>>,
) -> bool {
    &&& arguments.len() == 2 * values.len()
    &&& forall|i: int| 0 <= i < values.len() ==> #[trigger] pair_at(arguments, flag, values, i)
}

/// A repeated flag stands before each of its values.
pub proof fn law_repeated_flags(flag: Seq<char>, values: Seq<Seq<u8>>)
    ensures
        flag_before_each(process::repeated(flag, values), flag, values),
    decreases values.len(),
{
    if values.len() > 0 {
        let front = values.drop_last();
        let n = values.len() - 1;
        let before = process::repeated(flag, front);
        let all = process::repeated(flag, values);
        law_repeated_flags(flag, front);
        assert(all == before.push(flag).push(paths::shown(values.last())));
        assert forall|i: int| 0 <= i < values.len() implies #[trigger] pair_at(
            all,
            flag,
            values,
            i,
        ) by {
            if i < n {
                assert(pair_at(before, flag, front, i));
                assert(all[2 * i] == before[2 * i]);
                assert(all[2 * i + 1] == before[2 * i + 1]);
            }
        }
    }
}

/// Words as the bytes of arguments.
pub open spec fn spelled(words: Seq<Seq<char>>) -> Seq<Seq<u8>> {
    Seq::new(words.len(), |i: int| vstd::utf8::encode_utf8(words[i]))
}

/// The arguments name, in this order, the directories of executables, those that
/// support them, and the files that do.
pub open spec fn names_scan_inputs(arguments: Seq<Seq<u8>>, flags: FlagsModel) -> bool {
    exists|a: Seq<Seq<char>>, b: Seq<Seq<char>>, c: Seq<Seq<char>>|
        {
            &&& flag_before_each(a, "--exec-dir"@, flags.exec_dirs)
            &&& flag_before_each(b, "--support-dir"@, flags.support_dirs)
            &&& flag_before_each(c, "--support-file"@, flags.support_files)
            &&& arguments == #[trigger] (spelled(a) + spelled(b) + spelled(c))
        }
}

proof fn lemma_scan_args(flags: FlagsModel)
    ensures
        names_scan_inputs(process::scan_args(flags), flags),
{
    let a = process::repeated("--exec-dir"@, flags.exec_dirs);
    let b = process::repeated("--support-dir"@, flags.support_dirs);
    let c = process::repeated("--support-file"@, flags.support_files);
    law_repeated_flags("--exec-dir"@, flags.exec_dirs);
    law_repeated_flags("--support-dir"@, flags.support_dirs);
    law_repeated_flags("--support-file"@, flags.support_files);
    assert(process::encoded(a) =~= spelled(a));
    assert(process::encoded(b) =~= spelled(b));
    assert(process::encoded(c) =~= spelled(c));
    assert(process::scan_args(flags) == spelled(a) + spelled(b) + spelled(c));
}

/// The arguments begin with those listed, and what follows names the inputs of a
/// scan.
pub open spec fn begins_and_scans(
    arguments: Seq<Seq<u8>>,
    listed: Seq<Seq<u8>>,
    flags: FlagsModel,
) -> bool {
    let n = listed.len() as int;
    arguments.len() >= n && arguments.take(n) == listed && names_scan_inputs(
        arguments.skip(n),
        flags,
    )
}

/// A word as the bytes of an argument.
pub open spec fn word(w: Seq<char>) -> Seq<u8> {
    vstd::utf8::encode_utf8(w)
}

/// A session is told its role, the socket, the policy binary, the shim and the
/// helper, to exclude the policy binary, and what to scan.
pub proof fn law_helper_session_arguments(
    socket: Seq<u8>,
    policy: Seq<u8>,
    shim: Seq<u8>,
    helper: Seq<char>,
    flags: FlagsModel,
)
    ensures
        begins_and_scans(
            process::helper_session_args(socket, policy, shim, helper, flags),
            seq![
                word("--topology-role"@),
                word("session"@),
                word("--topology-socket"@),
                socket,
                word("--topology-policy"@),
                policy,
                word("--topology-shim"@),
                shim,
                word("--topology-helper-role"@),
                word(helper),
                word("--exclude"@),
                policy,
            ],
            flags,
        ),
{
    let listed = seq![
        word("--topology-role"@),
        word("session"@),
        word("--topology-socket"@),
        socket,
        word("--topology-policy"@),
        policy,
        word("--topology-shim"@),
        shim,
        word("--topology-helper-role"@),
        word(helper),
        word("--exclude"@),
        policy,
    ];
    let all = process::helper_session_args(socket, policy, shim, helper, flags);
    lemma_scan_args(flags);
    assert(all.take(12) =~= listed);
    assert(all.skip(12) =~= process::scan_args(flags));
}

/// A session whose helper, if any, comes at the end.
pub proof fn law_plain_session_arguments(
    socket: Seq<u8>,
    policy: Seq<u8>,
    shim: Seq<u8>,
    helper: Option<Seq<char>>,
    flags: FlagsModel,
)
    ensures
        ({
            let all = process::plain_session_args(socket, policy, shim, helper, flags);
            let n: int = if helper is Some {
                2
            } else {
                0
            };
            let listed = seq![
                word("--topology-role"@),
                word("session"@),
                word("--topology-socket"@),
                socket,
                word("--topology-policy"@),
                policy,
                word("--topology-shim"@),
                shim,
                word("--exclude"@),
                policy,
            ];
            &&& all.len() >= n
            &&& begins_and_scans(all.take(all.len() - n), listed, flags)
            &&& helper is Some ==> all[all.len() - 2] == word("--topology-helper-role"@)
                && all[all.len() - 1] == word(helper->0)
        }),
{
    let all = process::plain_session_args(socket, policy, shim, helper, flags);
    let n: int = if helper is Some {
        2
    } else {
        0
    };
    let listed = seq![
        word("--topology-role"@),
        word("session"@),
        word("--topology-socket"@),
        socket,
        word("--topology-policy"@),
        policy,
        word("--topology-shim"@),
        shim,
        word("--exclude"@),
        policy,
    ];
    lemma_scan_args(flags);
    let front = all.take(all.len() - n);
    assert(front.take(10) =~= listed);
    assert(front.skip(10) =~= process::scan_args(flags));
}

/// A session that chains two commands excludes both, and finds executables where
/// the real ones lie.
pub proof fn law_chain_session_arguments(
    socket: Seq<u8>,
    git_real: Seq<u8>,
    git_shim: Seq<u8>,
    ssh_real: Seq<u8>,
    real_dir: Seq<u8>,
    flags: FlagsModel,
)
    ensures
        begins_and_scans(
            process::chain_session_args(socket, git_real, git_shim, ssh_real, real_dir, flags),
            seq![
                word("--topology-role"@),
                word("session"@),
                word("--topology-socket"@),
                socket,
                word("--topology-policy"@),
                git_real,
                word("--topology-shim"@),
                git_shim,
                word("--topology-helper-role"@),
                word("chain-git-helper"@),
                word("--exclude"@),
                git_real,
                word("--exclude"@),
                ssh_real,
                word("--exec-dir"@),
                real_dir,
            ],
            flags,
        ),
{
    let listed = seq![
        word("--topology-role"@),
        word("session"@),
        word("--topology-socket"@),
        socket,
        word("--topology-policy"@),
        git_real,
        word("--topology-shim"@),
        git_shim,
        word("--topology-helper-role"@),
        word("chain-git-helper"@),
        word("--exclude"@),
        git_real,
        word("--exclude"@),
        ssh_real,
        word("--exec-dir"@),
        real_dir,
    ];
    let all = process::chain_session_args(socket, git_real, git_shim, ssh_real, real_dir, flags);
    lemma_scan_args(flags);
    assert(all.take(16) =~= listed);
    assert(all.skip(16) =~= process::scan_args(flags));
}

/// A launcher and a shim are told their role and the policy binary, and of the
/// rest what there is.
pub proof fn law_command_arguments(
    policy: Seq<u8>,
    helper: Option<Seq<char>>,
    socket: Seq<u8>,
    shim: Seq<u8>,
)
    ensures
        process::command_args(policy, None, None, None, false) == seq![
            word("--topology-role"@),
            word("command"@),
            word("--topology-policy"@),
            policy,
        ],
        helper is Some ==> process::command_args(policy, helper, Some(socket), Some(shim), true)
            == seq![
            word("--topology-role"@),
            word("command"@),
            word("--topology-policy"@),
            policy,
            word("--topology-helper-role"@),
            word(helper->0),
            word("--topology-socket"@),
            socket,
            word("--topology-shim"@),
            shim,
            word("--topology-command-pty"@),
        ],
        process::command_args(policy, helper, Some(socket), None, false) == process::command_args(
            policy,
            helper,
            None,
            None,
            false,
        ) + seq![word("--topology-socket"@), socket],
        process::command_args(policy, helper, None, Some(shim), false) == process::command_args(
            policy,
            helper,
            None,
            None,
            false,
        ) + seq![word("--topology-shim"@), shim],
        process::command_args(policy, helper, None, None, true) == process::command_args(
            policy,
            helper,
            None,
            None,
            false,
        ).push(word("--topology-command-pty"@)),
        process::shim_args(socket, policy, None) == seq![
            word("--topology-role"@),
            word("shim"@),
            word("--topology-socket"@),
            socket,
            word("--topology-policy"@),
            policy,
        ],
        helper is Some ==> process::shim_args(socket, policy, helper) == process::shim_args(
            socket,
            policy,
            None,
        ) + seq![word("--topology-helper-role"@), word(helper->0)],
{
    assert(process::command_args(policy, None, None, None, false) =~= seq![
        word("--topology-role"@),
        word("command"@),
        word("--topology-policy"@),
        policy,
    ]);
    if helper is Some {
        assert(process::command_args(policy, helper, Some(socket), Some(shim), true) =~= seq![
            word("--topology-role"@),
            word("command"@),
            word("--topology-policy"@),
            policy,
            word("--topology-helper-role"@),
            word(helper->0),
            word("--topology-socket"@),
            socket,
            word("--topology-shim"@),
            shim,
            word("--topology-command-pty"@),
        ]);
        assert(process::shim_args(socket, policy, helper) =~= process::shim_args(
            socket,
            policy,
            None,
        ) + seq![word("--topology-helper-role"@), word(helper->0)]);
    }
    let plain = process::command_args(policy, helper, None, None, false);
    assert(process::command_args(policy, helper, Some(socket), None, false) =~= plain + seq![
        word("--topology-socket"@),
        socket,
    ]);
    assert(process::command_args(policy, helper, None, Some(shim), false) =~= plain + seq![
        word("--topology-shim"@),
        shim,
    ]);
    assert(process::command_args(policy, helper, None, None, true) =~= plain.push(
        word("--topology-command-pty"@),
    ));
    assert(process::shim_args(socket, policy, None) =~= seq![
        word("--topology-role"@),
        word("shim"@),
        word("--topology-socket"@),
        socket,
        word("--topology-policy"@),
        policy,
    ]);
}

/// A chained command finds its shim first on its search path, its supervisor,
/// its policy, its helper, the raw key and the agent.
pub proof fn law_chained_environment(
    shim_dir: Seq<u8>,
    socket: Seq<u8>,
    ssh_real: Seq<u8>,
    raw_key: Seq<u8>,
    agent_sock: Seq<u8>,
    search_path: Seq<char>,
)
    ensures
        ({
            let env = process::chained_env(
                shim_dir,
                socket,
                ssh_real,
                raw_key,
                agent_sock,
                search_path,
            );
            let set = |name: Seq<char>, value: Seq<char>|
                exists|i: int|
                    0 <= i < env.len() && (#[trigger] env[i]).name == name && env[i].value == value;
            &&& env.len() == 7
            &&& set("PATH"@, paths::shown(shim_dir) + ":"@ + search_path)
            &&& set("NONO_HARNESS_AUTO_SHIM"@, "1"@)
            &&& set("NONO_SUPERVISOR_SOCK"@, paths::shown(socket))
            &&& set("NONO_HARNESS_POLICY_SSH"@, paths::shown(ssh_real))
            &&& set("NONO_HARNESS_HELPER_SSH"@, "chain-ssh-helper"@)
            &&& set("CHAIN_RAW_KEY"@, paths::shown(raw_key))
            &&& set("SSH_AUTH_SOCK"@, paths::shown(agent_sock))
        }),
{
    let env = process::chained_env(shim_dir, socket, ssh_real, raw_key, agent_sock, search_path);
    assert(env[0].name == "PATH"@);
    assert(env[1].name == "NONO_HARNESS_AUTO_SHIM"@);
    assert(env[2].name == "NONO_SUPERVISOR_SOCK"@);
    assert(env[3].name == "NONO_HARNESS_POLICY_SSH"@);
    assert(env[4].name == "NONO_HARNESS_HELPER_SSH"@);
    assert(env[5].name == "CHAIN_RAW_KEY"@);
    assert(env[6].name == "SSH_AUTH_SOCK"@);
}

// ---------------------------------------------------------------------------
// Files
// ---------------------------------------------------------------------------

/// A path is taken for a file exactly where it can be made canonical and is one.
pub proof fn law_canonical_file(path: Seq<u8>, reply: Result<(Seq<u8>, bool), Seq<char>>)
    ensures
        reply is Err ==> process::canonical_file(path, reply) == Err::<Seq<u8>, _>(
            ErrorModel::PathCanonicalization { path, source: reply->Err_0 },
        ),
        reply is Ok && (reply->Ok_0).1 ==> process::canonical_file(path, reply) == Ok::<
            _,
            ErrorModel,
        >((reply->Ok_0).0),
        reply is Ok && !(reply->Ok_0).1 ==> process::canonical_file(path, reply) == Err::<
            Seq<u8>,
            _,
        >(ErrorModel::ExpectedFile(path)),
{
}

/// The shim of a policy binary lies in the given directory, under the name of
/// the binary without its extension, and with an extension of its own; a path
/// without a name is an error.
pub proof fn law_shim_place(dir: Seq<u8>, home: Seq<u8>, name: Seq<u8>, policy: Seq<u8>)
    requires
        paths::plain_name(name),
    ensures
        paths::file_name_of(policy) is None ==> process::shim_place(dir, policy) == Err::<
            Seq<u8>,
            _,
        >(ErrorModel::Setup("policy path has no file name: "@ + paths::shown(policy))),
        process::shim_place(dir, paths::joined_path(home, name)) == Ok::<_, ErrorModel>(
            paths::joined_path(dir, paths::stem(name) + vstd::utf8::encode_utf8(".shim"@)),
        ),
{
    paths::law_join_adds_name(home, name);
}

/// A process identifier is taken as a signed number where it fits.
pub proof fn law_child_pid(id: u32)
    ensures
        id <= 0x7fff_ffff ==> process::child_pid(id) is Ok && process::child_pid(id)->Ok_0 == id,
        id > 0x7fff_ffff ==> process::child_pid(id) == Err::<i32, _>(
            ErrorModel::Setup(
                "child pid did not fit in i32: out of range integral type conversion attempted"@,
            ),
        ),
{
}

// ---------------------------------------------------------------------------
// Authentication
// ---------------------------------------------------------------------------

/// A peer is known by its credentials, its executable and its file, which must
/// be the trusted one by device and inode; what cannot be found out, or is
/// another file, is an error that says so.
pub proof fn law_authentication(
    credentials: Result<PeerCredentials, Seq<char>>,
    exe: Result<Seq<u8>, Seq<char>>,
    id: Result<FileId, Seq<char>>,
    trusted: FileId,
)
    ensures
        ({
            let same = id is Ok && id->Ok_0.dev == trusted.dev && id->Ok_0.ino == trusted.ino;
            let link = paths::shown(
                vstd::utf8::encode_utf8(
                    "/proc/"@ + text::signed_decimal(credentials->Ok_0.pid as int) + "/exe"@,
                ),
            );
            match process::authenticated(credentials, exe, id, trusted) {
                Ok(auth) => {
                    &&& credentials is Ok && exe is Ok && same
                    &&& auth.peer_pid == credentials->Ok_0.pid
                    &&& auth.peer_uid == credentials->Ok_0.uid
                    &&& auth.peer_gid == credentials->Ok_0.gid
                    &&& auth.peer_exe == exe->Ok_0
                    &&& auth.peer_id.dev == trusted.dev && auth.peer_id.ino == trusted.ino
                },
                Err(error) => {
                    ||| credentials is Err && error == ErrorModel::Setup(
                        "SO_PEERCRED failed: "@ + credentials->Err_0,
                    )
                    ||| credentials is Ok && exe is Err && error == ErrorModel::Setup(
                        "failed to read peer executable "@ + link + ": "@ + exe->Err_0,
                    )
                    ||| credentials is Ok && exe is Ok && id is Err && error == ErrorModel::Setup(
                        "failed to stat peer executable "@ + link + ": "@ + id->Err_0,
                    )
                    ||| credentials is Ok && exe is Ok && id is Ok && !same && error
                        == ErrorModel::Setup(
                        "shim authentication failed: peer executable "@ + paths::shown(exe->Ok_0)
                            + " has inode "@ + (text::decimal(id->Ok_0.dev as nat) + ":"@
                            + text::decimal(id->Ok_0.ino as nat)) + ", expected "@ + (
                        text::decimal(trusted.dev as nat) + ":"@ + text::decimal(
                            trusted.ino as nat,
                        )),
                    )
                },
            }
        }),
{
}

// ---------------------------------------------------------------------------
// Ancestry
// ---------------------------------------------------------------------------

/// The state of a search after the process and some of its ancestors were looked
/// at.
pub open spec fn search_after(wanted: i32, line: Seq<i32>) -> AncestryModel
    decreases line.len(),
{
    if line.len() <= 1 {
        process::look_at(line[0], wanted, 0)
    } else {
        process::ancestry_next(
            search_after(wanted, line.drop_last()),
            wanted,
            Ok(line.last()),
        )
    }
}

/// None of the first processes of a line is the wanted one or has no parent.
pub open spec fn passed_over(wanted: i32, line: Seq<i32>, n: int) -> bool {
    forall|i: int| 0 <= i < n ==> #[trigger] line[i] != wanted && line[i] > 1
}

/// An ancestor is found where it stands in the line before any process without a
/// parent, and the search gives up after so many generations.
pub proof fn law_ancestry(wanted: i32, line: Seq<i32>)
    requires
        line.len() > 0,
        passed_over(wanted, line, line.len() - 1),
    ensures
        ({
            let last = line[line.len() - 1];
            let state = search_after(wanted, line);
            &&& line.len() <= 128 && last == wanted ==> state is Found
            &&& line.len() <= 128 && last != wanted && last <= 1 ==> state is Absent
            &&& line.len() <= 128 && last != wanted && last > 1 ==> state == (AncestryModel::Ask {
                pid: last,
                seen: (line.len() - 1) as u32,
            })
            &&& line.len() > 128 ==> state == AncestryModel::Failed(
                ErrorModel::Setup(
                    "ancestry walk exceeded depth limit looking for "@ + text::signed_decimal(
                        wanted as int,
                    ),
                ),
            )
        }),
    decreases line.len(),
{
    if line.len() > 1 {
        let front = line.drop_last();
        assert forall|i: int| 0 <= i < front.len() - 1 implies #[trigger] front[i] != wanted
            && front[i] > 1 by {
            assert(front[i] == line[i]);
        }
        law_ancestry(wanted, front);
        assert(line[line.len() - 2] == front[front.len() - 1]);
        assert(line[line.len() - 2] != wanted && line[line.len() - 2] > 1);
    }
}

/// The search ends with an error where a parent cannot be found out, and what
/// has ended stays ended.
pub proof fn law_ancestry_trouble(state: AncestryModel, wanted: i32, error: ErrorModel)
    ensures
        state is Ask ==> process::ancestry_next(state, wanted, Err(error))
            == AncestryModel::Failed(error),
        !(state is Ask) ==> forall|parent: Result<i32, ErrorModel>| #[trigger]
            process::ancestry_next(state, wanted, parent) == state,
{
}

/// The text is a row of decimal digits for the size of the number, behind a
/// minus where it is negative, perhaps behind a plus where it is not.
pub open spec fn spells_integer(spelled: Seq<char>, n: int) -> bool {
    exists|digits: Seq<char>|
        {
            &&& digits.len() > 0
            &&& forall|i: int| 0 <= i < digits.len() ==> '0' <= #[trigger] digits[i] <= '9'
            &&& {
                ||| spelled == seq!['-'] + digits && n == -(#[trigger] text_laws::number_of(digits))
                ||| (spelled == digits || spelled == seq!['+'] + digits) && n
                    == text_laws::number_of(digits)
            }
        }
}

proof fn lemma_digits(digits: Seq<char>)
    requires
        args::all_digits(digits),
    ensures
        args::digits_value(digits) == text_laws::number_of(digits),
    decreases digits.len(),
{
    if digits.len() > 0 {
        let front = digits.drop_last();
        assert forall|i: int| 0 <= i < front.len() implies '0' <= #[trigger] front[i] <= '9' by {
            assert(front[i] == digits[i]);
        }
        lemma_digits(front);
        assert('0' <= digits[digits.len() - 1] <= '9');
    }
}

/// A text is read as an integer exactly if it spells one of 32 bits.
pub proof fn law_integer_is_read(spelled: Seq<char>, n: int)
    ensures
        process::signed_number(spelled) == Some(n) <==> spells_integer(spelled, n) && -0x8000_0000
            <= n <= 0x7fff_ffff,
{
    let own = process::magnitude(spelled);
    if process::signed_number(spelled) == Some(n) {
        lemma_digits(own);
        if spelled[0] == '-' {
            assert(spelled =~= seq!['-'] + own);
        } else if spelled[0] == '+' {
            assert(spelled =~= seq!['+'] + own);
        }
        assert(text_laws::number_of(own) == args::digits_value(own));
        assert(spells_integer(spelled, n));
    }
    if spells_integer(spelled, n) && -0x8000_0000 <= n <= 0x7fff_ffff {
        let digits = choose|digits: Seq<char>|
            {
                &&& digits.len() > 0
                &&& forall|i: int| 0 <= i < digits.len() ==> '0' <= #[trigger] digits[i] <= '9'
                &&& {
                    ||| spelled == seq!['-'] + digits && n == -(
                    #[trigger] text_laws::number_of(digits))
                    ||| (spelled == digits || spelled == seq!['+'] + digits) && n
                        == text_laws::number_of(digits)
                }
            };
        assert('0' <= digits[0] <= '9');
        lemma_digits(digits);
        if spelled == digits {
            assert(own == digits);
        } else {
            assert(spelled.skip(1) =~= digits);
            assert(spelled[0] == '-' || spelled[0] == '+');
            assert(own == digits);
        }
    }
}

/// The text begins so.
pub open spec fn begins_with(line: Seq<char>, start: Seq<char>) -> bool {
    exists|rest: Seq<char>| line == #[trigger] (start + rest)
}

/// No line begins so.
pub open spec fn none_begins_with(lines: Seq<Seq<char>>, start: Seq<char>) -> bool {
    forall|i: int| 0 <= i < lines.len() ==> !begins_with(#[trigger] lines[i], start)
}

/// The line at a position is the first that begins so, and `rest` is what
/// follows in it.
pub open spec fn first_line_with(
    lines: Seq<Seq<char>>,
    start: Seq<char>,
    i: int,
    rest: Seq<char>,
) -> bool {
    &&& 0 <= i < lines.len()
    &&& lines[i] == start + rest
    &&& forall|j: int| 0 <= j < i ==> !begins_with(#[trigger] lines[j], start)
}

/// The field is what follows in the first line that begins so; there is none
/// where no line does.
spec fn is_field(lines: Seq<Seq<char>>, start: Seq<char>, field: Option<Seq<char>>) -> bool {
    match field {
        Some(rest) => exists|i: int| #[trigger] first_line_with(lines, start, i, rest),
        None => none_begins_with(lines, start),
    }
}

proof fn lemma_ppid_field(lines: Seq<Seq<char>>)
    ensures
        is_field(lines, "PPid:"@, process::ppid_field(lines)),
    decreases lines.len(),
{
    let start = "PPid:"@;
    if lines.len() == 0 {
        assert(none_begins_with(lines, start));
    } else if start.is_prefix_of(lines[0]) {
        let rest = lines[0].skip(start.len() as int);
        assert(lines[0] =~= start + rest);
        assert(first_line_with(lines, start, 0, process::ppid_field(lines)->0));
    } else {
        let later = lines.skip(1);
        lemma_ppid_field(later);
        if begins_with(lines[0], start) {
            let r = choose|r: Seq<char>| lines[0] == #[trigger] (start + r);
            assert(start =~= lines[0].subrange(0, start.len() as int));
        }
        assert(forall|j: int| 0 < j < lines.len() ==> #[trigger] lines[j] == later[j - 1]);
        if let Some(field) = process::ppid_field(later) {
            let i = choose|i: int| #[trigger] first_line_with(later, start, i, field);
            assert(first_line_with(lines, start, i + 1, field));
        } else {
            assert(none_begins_with(lines, start));
        }
    }
}

/// The parent of a process is the integer behind `PPid:` on the first line of
/// its status that begins so, with white space taken away; a status that cannot
/// be read, has no such line or no integer on it is an error.
pub proof fn law_parent(pid: i32, status: Result<Seq<char>, Seq<char>>)
    ensures
        ({
            let place = vstd::utf8::encode_utf8(
                "/proc/"@ + text::signed_decimal(pid as int) + "/status"@,
            );
            let lines = bytes::split(status->Ok_0, '\n');
            match process::parent_of(pid, status) {
                Ok(parent) => status is Ok && exists|i: int, field: Seq<char>|
                    #[trigger] first_line_with(lines, "PPid:"@, i, field) && spells_integer(
                        text::trimmed(field),
                        parent,
                    ) && -0x8000_0000 <= parent <= 0x7fff_ffff,
                Err(error) => {
                    ||| status is Err && error == (ErrorModel::ConfigRead {
                        path: place,
                        source: status->Err_0,
                    })
                    ||| status is Ok && error == ErrorModel::Setup(
                        "missing PPid in "@ + paths::shown(place),
                    ) && none_begins_with(lines, "PPid:"@)
                    ||| status is Ok && exists|i: int, field: Seq<char>|
                        #[trigger] first_line_with(lines, "PPid:"@, i, field) && error
                            == ErrorModel::Setup(
                            "failed to parse PPid from "@ + paths::shown(place) + ": "@
                                + process::integer_complaint(text::trimmed(field)),
                        ) && forall|n: int|
                            -0x8000_0000 <= n <= 0x7fff_ffff ==> !#[trigger] spells_integer(
                                text::trimmed(field),
                                n,
                            )
                },
            }
        }),
{
    if let Ok(status) = status {
        let lines = bytes::split(status, '\n');
        lemma_ppid_field(lines);
        if let Some(field) = process::ppid_field(lines) {
            let i = choose|i: int| #[trigger] first_line_with(lines, "PPid:"@, i, field);
            let spelled = text::trimmed(field);
            if let Some(n) = process::signed_number(spelled) {
                law_integer_is_read(spelled, n);
            } else {
                assert forall|n: int| -0x8000_0000 <= n <= 0x7fff_ffff implies !#[trigger]
                    spells_integer(spelled, n) by {
                    law_integer_is_read(spelled, n);
                }
            }
            assert(first_line_with(lines, "PPid:"@, i, field));
        }
    }
}

// ---------------------------------------------------------------------------
// Roles
// ---------------------------------------------------------------------------

/// The name of a role.
pub open spec fn name_of(role: Role) -> Seq<char> {
    match role {
        Role::Session => "session"@,
        Role::Shim => "shim"@,
        Role::Command => "command"@,
        Role::StdioHelper => "stdio-helper"@,
        Role::TtyHelper => "tty-helper"@,
        Role::TtyJobHelper => "tty-job-helper"@,
        Role::CommandPtyHelper => "command-pty-helper"@,
        Role::ChainGitHelper => "chain-git-helper"@,
        Role::ChainSshHelper => "chain-ssh-helper"@,
    }
}

/// Every role is found by its name, and no other name stands for one.
pub proof fn law_roles_are_named(role: Role, name: Seq<char>)
    ensures
        roles::role_named(name_of(role)) == Some(role),
        roles::role_named(name) is Some ==> name_of(roles::role_named(name)->0) == name,
{
    reveal_strlit("session");
    reveal_strlit("shim");
    reveal_strlit("command");
    reveal_strlit("stdio-helper");
    reveal_strlit("tty-helper");
    reveal_strlit("tty-job-helper");
    reveal_strlit("command-pty-helper");
    reveal_strlit("chain-git-helper");
    reveal_strlit("chain-ssh-helper");
    assert("session"@.len() == 7 && "shim"@.len() == 4 && "command"@.len() == 7);
    assert("stdio-helper"@.len() == 12 && "tty-helper"@.len() == 10);
    assert("tty-job-helper"@.len() == 14 && "command-pty-helper"@.len() == 18);
    assert("chain-git-helper"@.len() == 16 && "chain-ssh-helper"@.len() == 16);
    assert("session"@[0] == 's' && "command"@[0] == 'c');
    assert("chain-git-helper"@[6] == 'g' && "chain-ssh-helper"@[6] == 's');
    assert(roles::role_named("session"@) == Some(Role::Session));
    assert(roles::role_named("shim"@) == Some(Role::Shim));
    assert(roles::role_named("command"@) == Some(Role::Command));
    assert(roles::role_named("stdio-helper"@) == Some(Role::StdioHelper));
    assert(roles::role_named("tty-helper"@) == Some(Role::TtyHelper));
    assert(roles::role_named("tty-job-helper"@) == Some(Role::TtyJobHelper));
    assert(roles::role_named("command-pty-helper"@) == Some(Role::CommandPtyHelper));
    assert(roles::role_named("chain-git-helper"@) == Some(Role::ChainGitHelper));
    assert(roles::role_named("chain-ssh-helper"@) == Some(Role::ChainSshHelper));
}

/// What is done first of all that was asked for: an internal role, then the
/// smoke tests in their order, then a measurement, which builds rules for a dry
/// run too and applies them only for a real one.
pub proof fn law_modes(flags: ModeFlags)
    ensures
        ({
            let mode = roles::mode_for(flags);
            let asked = seq![
                flags.topology_role,
                flags.tty_signal_smoke,
                flags.tty_job_control_smoke,
                flags.chain_credential_smoke,
                flags.command_pty_bridge_smoke,
                flags.auto_shim,
                flags.stdio_fd_smoke,
                flags.topology_smoke,
            ];
            let modes = seq![
                Mode::Role,
                Mode::TtySignalSmoke,
                Mode::TtyJobControlSmoke,
                Mode::ChainCredentialSmoke,
                Mode::CommandPtyBridgeSmoke,
                Mode::AutoShim,
                Mode::StdioFdSmoke,
                Mode::TopologySmoke,
            ];
            &&& forall|i: int|
                0 <= i < 8 && #[trigger] asked[i] && (forall|j: int| 0 <= j < i ==> !asked[j])
                    ==> mode == modes[i]
            &&& (forall|i: int| 0 <= i < 8 ==> !asked[i]) ==> mode == (Mode::Measure {
                build: flags.dry_run || flags.apply,
                apply: flags.apply && !flags.dry_run,
            })
        }),
{
    let asked = seq![
        flags.topology_role,
        flags.tty_signal_smoke,
        flags.tty_job_control_smoke,
        flags.chain_credential_smoke,
        flags.command_pty_bridge_smoke,
        flags.auto_shim,
        flags.stdio_fd_smoke,
        flags.topology_smoke,
    ];
    assert(asked[0] == flags.topology_role);
    assert(asked[1] == flags.tty_signal_smoke);
    assert(asked[2] == flags.tty_job_control_smoke);
    assert(asked[3] == flags.chain_credential_smoke);
    assert(asked[4] == flags.command_pty_bridge_smoke);
    assert(asked[5] == flags.auto_shim);
    assert(asked[6] == flags.stdio_fd_smoke);
    assert(asked[7] == flags.topology_smoke);
}

/// An auto shim takes its command's name from the path under which it was
/// called, and looks up its policy and its helper under keys made of it; without
/// such a name there is no command.
pub proof fn law_auto_shim(dir: Seq<u8>, name: Seq<u8>, called_as: Seq<u8>)
    requires
        paths::plain_name(name),
    ensures
        ({
            let called = bytes::lossy(name);
            match roles::auto_shim(Some(paths::joined_path(dir, name))) {
                Ok(shim) => {
                    &&& shim.command_name == called
                    &&& shim.policy_key == "NONO_HARNESS_POLICY_"@ + process::key_suffix(called)
                    &&& shim.helper_key == "NONO_HARNESS_HELPER_"@ + process::key_suffix(called)
                },
                Err(_) => false,
            }
        }),
        roles::auto_shim(None) == Err::<AutoShimModel, _>(
            ErrorModel::Setup("auto shim argv[0] was missing"@),
        ),
        paths::file_name_of(called_as) is None ==> roles::auto_shim(Some(called_as)) == Err::<
            AutoShimModel,
            _,
        >(ErrorModel::Setup("auto shim argv[0] had no file name: "@ + paths::shown(called_as))),
{
    paths::law_join_adds_name(dir, name);
}

/// A helper proves its streams exactly where its input is what was sent and no
/// descriptor is open beside the standard streams; other input makes it exit
/// with 42, and a leak with 43.
pub proof fn law_stdio_helper(input: Result<Seq<u8>, Seq<char>>, open_fds: Seq<i32>)
    ensures
        ({
            let report = roles::stdio_helper(input, open_fds);
            let arrived = input is Ok && input->Ok_0 == vstd::utf8::encode_utf8(
                "nono-stdin-proof\n"@,
            );
            &&& input is Err ==> report.end == EndModel::Failed(
                ErrorModel::Setup("stdio helper failed to read stdin: "@ + input->Err_0),
            )
            &&& input is Ok && !arrived ==> report.end == EndModel::Exit(42)
            &&& arrived && open_fds.len() > 0 ==> report.end == EndModel::Exit(43)
            &&& arrived && open_fds.len() == 0 ==> report.end is Success
            &&& arrived ==> report.stdout.len() == 2 && report.stdout[0] == "stdio-helper-stdout: "@
                + text::trimmed_end(bytes::lossy(input->Ok_0)) && report.stdout[1]
                == "stdio-helper-open-fds: "@ + roles::number_list(open_fds)
            &&& arrived ==> report.stderr.len() > 0 && report.stderr[0]
                == "stdio-helper-stderr: proof"@
            &&& !arrived ==> report.stdout.len() == 0
        }),
{
}

/// A list of numbers is written between brackets, with commas between them.
pub proof fn law_number_list(list: Seq<i32>, words: Seq<Seq<char>>)
    requires
        words.len() == list.len(),
        forall|i: int|
            0 <= i < list.len() ==> #[trigger] words[i] == text::signed_decimal(list[i] as int),
    ensures
        roles::number_list(list) == "["@ + text::joined(words, ", "@) + "]"@,
{
    assert(words =~= list.map_values(|n: i32| text::signed_decimal(n as int)));
}

/// A raw key that can be opened makes a helper exit with 45; one that is denied
/// is a success, and any other trouble an error.
pub proof fn law_raw_key(label: Seq<char>, path: Seq<u8>, reply: OpenModel)
    ensures
        ({
            let report = roles::raw_key_denied(label, path, reply);
            &&& reply is Opened ==> report.end == EndModel::Exit(45) && report.stderr == seq![
                label + "-raw-key: unexpectedly-readable"@,
            ] && report.stdout.len() == 0
            &&& reply is Denied ==> report.end is Success && report.stdout == seq![
                label + "-raw-key: denied"@,
            ] && report.stderr.len() == 0
            &&& reply is Failed ==> report.end == EndModel::Failed(
                ErrorModel::Setup(
                    label + " raw-key probe failed with non-permission error for "@ + paths::shown(
                        path,
                    ) + ": "@ + reply->Failed_0,
                ),
            ) && report.stdout.len() == 0 && report.stderr.len() == 0
        }),
{
}

/// A helper that chains a command tells how it ended and ends likewise; a
/// command without a code counts as 128.
pub proof fn law_chain_git_helper(status: Result<Option<i32>, Seq<char>>)
    ensures
        ({
            let report = roles::chain_git_helper(status);
            let code: int = if status is Ok && status->Ok_0 is Some {
                status->Ok_0->0 as int
            } else {
                128
            };
            &&& status is Err ==> report.end == EndModel::Failed(
                ErrorModel::Setup(
                    "chain git helper failed to spawn ssh shim: "@ + status->Err_0,
                ),
            ) && report.stdout.len() == 0
            &&& status is Ok ==> report.stdout == seq![
                "chain-git-helper-ssh-status: "@ + text::signed_decimal(code),
            ]
            &&& status is Ok && code == 0 ==> report.end is Success
            &&& status is Ok && code != 0 ==> report.end is Exit && report.end->Exit_0 == code
            &&& report.stderr.len() == 0
        }),
{
}

/// A helper on a terminal tells in this order whether its input is a terminal,
/// which processes it is with, and that it is ready.
pub proof fn law_terminal_lines(
    name: Seq<char>,
    is_tty: bool,
    pid: i32,
    pgrp: i32,
    sid: i32,
    foreground: Seq<char>,
    ready: Seq<char>,
)
    ensures
        ({
            let lines = roles::terminal_lines(name, is_tty, pid, pgrp, sid, foreground, ready);
            &&& lines.len() == 3
            &&& is_tty ==> lines[0] == name + "-isatty-stdin: "@ + "true"@
            &&& !is_tty ==> lines[0] == name + "-isatty-stdin: "@ + "false"@
            &&& lines[1] == name + "-pid: "@ + text::signed_decimal(pid as int) + " pgrp="@
                + text::signed_decimal(pgrp as int) + " sid="@ + text::signed_decimal(sid as int)
                + " tcgetpgrp="@ + foreground
            &&& lines[2] == ready
        }),
{
}

/// A helper that reaches the agent succeeds; one that does not exits with 44.
pub proof fn law_chain_ssh_helper(agent: Seq<u8>, reply: Result<(), Seq<char>>)
    ensures
        ({
            let report = roles::chain_ssh_helper(agent, reply);
            &&& reply is Ok ==> report.end is Success && report.stdout == seq![
                "chain-ssh-helper-agent: connected"@,
            ] && report.stderr.len() == 0
            &&& reply is Err ==> report.end == EndModel::Exit(44) && report.stdout.len() == 0
                && report.stderr == seq![
                "chain-ssh-helper-agent: failed to connect "@ + paths::shown(agent) + ": "@
                    + reply->Err_0,
            ]
        }),
{
}

// ---------------------------------------------------------------------------
// Measurements
// ---------------------------------------------------------------------------

/// A measurement whose work succeeds detects, scans, builds where rules are
/// wanted, restricts and probes where they are applied, and reports what each of
/// these found.
pub proof fn law_measurement_runs(
    extent: Extent,
    abi: i32,
    scan: ScanModel,
    scan_ms: u128,
    build_ms: u128,
    restrict_ms: u128,
    probes: Seq<SummaryModel>,
)
    ensures
        ({
            let scanning = measure::next_phase(
                extent,
                PhaseModel::DetectAbi,
                ReplyModel::Abi(abi),
            );
            let scanned = measure::next_phase(
                extent,
                scanning,
                ReplyModel::Scanned { scan, ms: scan_ms },
            );
            let built = measure::next_phase(extent, scanned, ReplyModel::Built { ms: build_ms });
            let restricted = measure::next_phase(
                extent,
                built,
                ReplyModel::Restricted { ms: restrict_ms },
            );
            let probed = measure::next_phase(extent, restricted, ReplyModel::Probed(probes));
            let known = MeasuredModel {
                abi,
                scan,
                scan_ms,
                build_ms: None,
                restrict_ms: None,
                probes: Seq::empty(),
            };
            &&& scanning == (PhaseModel::Scan { abi })
            &&& !extent.build && !extent.apply ==> scanned == PhaseModel::Report(known)
            &&& extent.build || extent.apply ==> scanned == (PhaseModel::Build {
                found: known,
                rules: rules::planned_rules(abi, scan, Seq::empty()),
            })
            &&& extent.build && !extent.apply ==> built == PhaseModel::Report(
                MeasuredModel { build_ms: Some(build_ms), ..known },
            )
            &&& extent.apply ==> {
                &&& built == PhaseModel::Restrict(
                    MeasuredModel { build_ms: Some(build_ms), ..known },
                )
                &&& restricted == PhaseModel::Probe(
                    MeasuredModel {
                        build_ms: Some(build_ms),
                        restrict_ms: Some(restrict_ms),
                        ..known
                    },
                )
                &&& probed == PhaseModel::Report(
                    MeasuredModel {
                        build_ms: Some(build_ms),
                        restrict_ms: Some(restrict_ms),
                        probes,
                        ..known
                    },
                )
            }
            &&& forall|found: MeasuredModel| #[trigger]
                measure::next_phase(extent, PhaseModel::Report(found), ReplyModel::Reported) is Ended
        }),
{
}

/// Work that is refused ends a measurement with its error, unless it has ended.
pub proof fn law_measurement_trouble(extent: Extent, phase: PhaseModel, error: ErrorModel)
    ensures
        phase is Ended || phase is Failed ==> forall|reply: ReplyModel| #[trigger]
            measure::next_phase(extent, phase, reply) == phase,
        !(phase is Ended || phase is Failed) ==> measure::next_phase(
            extent,
            phase,
            ReplyModel::Refused(error),
        ) == PhaseModel::Failed(error),
{
}

/// The times of a measurement are those of its parts; it was applied where this
/// process was restricted.
pub proof fn law_timings(found: MeasuredModel, total_ms: u128)
    ensures
        measure::timings_of(found, total_ms).scan_ms == found.scan_ms,
        measure::timings_of(found, total_ms).ruleset_build_ms == found.build_ms,
        measure::timings_of(found, total_ms).restrict_self_ms == found.restrict_ms,
        measure::timings_of(found, total_ms).total_ms == total_ms,
        measure::applied(found) <==> found.restrict_ms is Some,
{
}

// ---------------------------------------------------------------------------
// Summaries
// ---------------------------------------------------------------------------

/// The versions of the kernel interface are named from the first to the ninth.
pub proof fn law_abi_names(abi: i32)
    ensures
        abi <= 0 ==> summary::abi_name(abi) == "Unsupported"@,
        1 <= abi <= 8 ==> summary::abi_name(abi) == "V"@ + text::decimal(abi as nat),
        abi >= 9 ==> summary::abi_name(abi) == "V9"@,
{
}

/// Truth values, optional numbers and outcomes as they are written.
pub proof fn law_words(value: bool, number: Option<i32>, outcome: ProbeModel)
    ensures
        summary::truth(true) == "true"@,
        summary::truth(false) == "false"@,
        number is None ==> probe::option_number(number) == "None"@,
        number is Some ==> probe::option_number(number) == "Some("@ + text::signed_decimal(
            number->0 as int,
        ) + ")"@,
        outcome is SpawnDenied ==> probe::outcome_text(outcome) == "SpawnDenied"@,
        outcome is Exited ==> probe::outcome_text(outcome) == "Exited { code: "@
            + probe::option_number(outcome->code) + " }"@,
        outcome is SpawnError ==> probe::outcome_text(outcome) == "SpawnError { message: "@
            + text::debug_text(outcome->message) + " }"@,
        probe::expectation_text(ProbeExpectation::Allow) == "Allow"@,
        probe::expectation_text(ProbeExpectation::Deny) == "Deny"@,
{
}

/// The counts that a report shows, each behind its label, in this order.
pub proof fn law_counts_are_shown(
    abi: i32,
    scan: ScanModel,
    timings: TimingSummary,
    probes: Seq<SummaryModel>,
    applied: bool,
)
    ensures
        ({
            let lines = summary::human_lines(abi, scan, timings, probes, applied);
            let stats = scan.stats;
            let shows = |i: int, label: Seq<char>, n: usize|
                lines[i] == label + text::decimal(n as nat);
            &&& lines.len() >= 14
            &&& lines[0] == "Landlock ABI: "@ + summary::abi_name(abi)
            &&& shows(1, "Executable dirs requested: "@, stats.exec_dirs_requested)
            &&& shows(2, "Executable dirs scanned: "@, stats.exec_dirs_scanned)
            &&& shows(3, "Entries seen: "@, stats.exec_entries_seen)
            &&& shows(4, "Executable candidates: "@, stats.executable_candidates)
            &&& shows(5, "Allowed executable files: "@, stats.allowed_executable_files)
            &&& shows(6, "Excluded by path: "@, stats.excluded_by_path)
            &&& shows(7, "Excluded by inode: "@, stats.excluded_by_inode)
            &&& shows(8, "Duplicate inode skips: "@, stats.duplicate_inode_skips)
            &&& shows(9, "Support dirs allowed: "@, stats.support_dirs_allowed)
            &&& shows(10, "Support files allowed: "@, stats.support_files_allowed)
            &&& shows(11, "Total Landlock rules: "@, stats.total_landlock_rules)
            &&& lines[12] == "Scan time: "@ + text::decimal(timings.scan_ms as nat) + " ms"@
        }),
{
    let head = seq!["Landlock ABI: "@ + summary::abi_name(abi)];
    let counts = summary::count_lines(scan.stats);
    let times = summary::timing_lines(timings);
    let lines = summary::human_lines(abi, scan, timings, probes, applied);
    assert(counts.len() == 11);
    assert(times.len() >= 2);
    assert(forall|i: int| 1 <= i < 12 ==> lines[i] == counts[i - 1]);
    assert(lines[12] == times[0]);
}

/// The list holds the line.
pub open spec fn shown_in(lines: Seq<Seq<char>>, line: Seq<char>) -> bool {
    lines.contains(line)
}

/// A report shows how long the rules took to build and to apply where that was
/// measured, every excluded binary with its file, every probe, and whether the
/// rules were applied.
pub proof fn law_details_are_shown(
    abi: i32,
    scan: ScanModel,
    timings: TimingSummary,
    probes: Seq<SummaryModel>,
    applied: bool,
)
    ensures
        ({
            let lines = summary::human_lines(abi, scan, timings, probes, applied);
            &&& timings.ruleset_build_ms is Some ==> shown_in(
                lines,
                "Ruleset build time: "@ + text::decimal(timings.ruleset_build_ms->0 as nat)
                    + " ms"@,
            )
            &&& timings.restrict_self_ms is Some ==> shown_in(
                lines,
                "restrict_self time: "@ + text::decimal(timings.restrict_self_ms->0 as nat)
                    + " ms"@,
            )
            &&& shown_in(lines, "Total time: "@ + text::decimal(timings.total_ms as nat) + " ms"@)
            &&& !applied ==> shown_in(
                lines,
                "Landlock was not applied. Re-run with --apply to measure restrict_self."@,
            )
            &&& forall|i: int|
                0 <= i < scan.excluded.len() ==> {
                    let entry = #[trigger] scan.excluded[i];
                    shown_in(
                        lines,
                        "  "@ + paths::shown(entry.requested) + " -> "@ + paths::shown(
                            entry.canonical,
                        ) + " ["@ + text::decimal(entry.id.dev as nat) + ":"@ + text::decimal(
                            entry.id.ino as nat,
                        ) + "]"@,
                    )
                }
            &&& forall|i: int|
                0 <= i < probes.len() ==> {
                    let p = #[trigger] probes[i];
                    shown_in(
                        lines,
                        "  "@ + p.path + " expected "@ + probe::expectation_text(p.expected)
                            + ", outcome "@ + probe::outcome_text(p.outcome) + ", matched="@
                            + summary::truth(p.matched),
                    )
                }
        }),
{
    let head = seq!["Landlock ABI: "@ + summary::abi_name(abi)];
    let counts = summary::count_lines(scan.stats);
    let times = summary::timing_lines(timings);
    let excluded = summary::exclusion_lines(scan.excluded);
    let remark: Seq<Seq<char>> = if applied {
        Seq::empty()
    } else {
        seq!["Landlock was not applied. Re-run with --apply to measure restrict_self."@]
    };
    let tried = summary::probe_lines(probes);
    let lines = summary::human_lines(abi, scan, timings, probes, applied);
    assert(lines == head + counts + times + excluded + remark + tried);
    let t = 12int;
    let e = t + times.len();
    let r = e + excluded.len();
    let p = r + remark.len();
    assert(counts.len() == 11);
    assert(forall|i: int| 0 <= i < times.len() ==> #[trigger] times[i] == lines[t + i]);
    assert(forall|i: int| 0 <= i < excluded.len() ==> #[trigger] excluded[i] == lines[e + i]);
    assert(forall|i: int| 0 <= i < remark.len() ==> #[trigger] remark[i] == lines[r + i]);
    assert(forall|i: int| 0 <= i < tried.len() ==> #[trigger] tried[i] == lines[p + i]);
    if timings.ruleset_build_ms is Some {
        assert(times[1] == lines[t + 1]);
        if timings.restrict_self_ms is Some {
            assert(times[2] == lines[t + 2]);
            assert(times[3] == lines[t + 3]);
        } else {
            assert(times[2] == lines[t + 2]);
        }
    } else if timings.restrict_self_ms is Some {
        assert(times[1] == lines[t + 1]);
        assert(times[2] == lines[t + 2]);
    } else {
        assert(times[1] == lines[t + 1]);
    }
    if !applied {
        assert(remark[0] == lines[r]);
    }
    assert forall|i: int| 0 <= i < scan.excluded.len() implies shown_in(
        lines,
        "  "@ + paths::shown((#[trigger] scan.excluded[i]).requested) + " -> "@ + paths::shown(
            scan.excluded[i].canonical,
        ) + " ["@ + text::decimal(scan.excluded[i].id.dev as nat) + ":"@ + text::decimal(
            scan.excluded[i].id.ino as nat,
        ) + "]"@,
    ) by {
        assert(excluded[i + 1] == summary::exclusion_line(scan.excluded[i]));
        assert(excluded[i + 1] == lines[e + i + 1]);
    }
    assert forall|i: int| 0 <= i < probes.len() implies shown_in(
        lines,
        "  "@ + (#[trigger] probes[i]).path + " expected "@ + probe::expectation_text(
            probes[i].expected,
        ) + ", outcome "@ + probe::outcome_text(probes[i].outcome) + ", matched="@
            + summary::truth(probes[i].matched),
    ) by {
        assert(tried[i + 1] == summary::probe_line(probes[i]));
        assert(tried[i + 1] == lines[p + i + 1]);
    }
}

/// A measurement as data holds what it found, field by field.
pub proof fn law_measurement_as_data(
    abi: i32,
    scan: ScanModel,
    timings: TimingSummary,
    probes: Seq<SummaryModel>,
)
    ensures
        ({
            let data = summary::json_data(abi, scan, timings, probes);
            &&& data.landlock_abi == summary::abi_name(abi)
            &&& data.scan == scan.stats
            &&& data.timings == timings
            &&& data.probes == probes
            &&& data.excluded.len() == scan.excluded.len()
            &&& forall|i: int|
                0 <= i < scan.excluded.len() ==> {
                    let entry: ExclusionModel = scan.excluded[i];
                    &&& (#[trigger] data.excluded[i]).requested == paths::shown(entry.requested)
                    &&& data.excluded[i].canonical == paths::shown(entry.canonical)
                    &&& data.excluded[i].dev == entry.id.dev
                    &&& data.excluded[i].ino == entry.id.ino
                }
        }),
{
}

} // verus!
