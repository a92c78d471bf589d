//! What inspecting a file, and looking for one, comes to.
use vstd::prelude::*;

use crate::bytes;
use crate::command_policy::executable;
use crate::command_policy::executable::{ResolvedExecutableKind, ShapeModel};
use crate::command_policy::inspect;
use crate::command_policy::inspect::{
    FileFacts, InspectedModel, InspectionModel, MatchModel, ReplyModel, StatModel,
};
use crate::command_policy::resolve;
use crate::command_policy::resolve::{DirStatusModel, SearchDirModel};
use crate::command_policy::{CommandModel, PoliciesModel};
use crate::error::ErrorModel;
use crate::paths;
use crate::positions;
use crate::text;
use crate::text_laws;

verus! {

// ---------------------------------------------------------------------------
// Shapes
// ---------------------------------------------------------------------------

/// The contents begin as an ELF file does.
pub open spec fn begins_as_elf(contents: Seq<u8>) -> bool {
    contents.len() >= 4 && contents[0] == 127 && contents[1] == 69 && contents[2] == 76
        && contents[3] == 70
}

/// The contents are a number sign, an exclamation mark, `line`, and either
/// nothing more or a line feed and more; the line holds no line feed.
pub open spec fn begins_with_line(contents: Seq<u8>, line: Seq<u8>) -> bool {
    &&& contents.len() >= 2 + line.len()
    &&& contents[0] == 35
    &&& contents[1] == 33
    &&& contents.subrange(2, 2 + line.len() as int) == line
    &&& contents.len() > 2 + line.len() ==> contents[2 + line.len() as int] == 10
    &&& forall|i: int| 0 <= i < line.len() ==> #[trigger] line[i] != 10
}

/// The shape of a script whose first line names an interpreter and arguments.
pub open spec fn script_of_words(words: Seq<Seq<char>>, shape: ShapeModel) -> bool {
    &&& words.len() > 0
    &&& shape.kind == ResolvedExecutableKind::ShebangScript
    &&& shape.interpreter == Some(vstd::utf8::encode_utf8(words[0]))
    &&& shape.interpreter_args.len() == words.len() - 1
    &&& forall|i: int|
        0 <= i < shape.interpreter_args.len() ==> #[trigger] shape.interpreter_args[i] == words[i
            + 1]
}

/// What the contents of a file say of how it is run.
pub open spec fn shape_fits(
    path: Seq<u8>,
    contents: Seq<u8>,
    result: Result<ShapeModel, ErrorModel>,
) -> bool {
    let script = contents.len() >= 2 && contents[0] == 35 && contents[1] == 33;
    &&& begins_as_elf(contents) ==> result is Ok && result->Ok_0.kind
        == ResolvedExecutableKind::Elf && result->Ok_0.interpreter is None
        && result->Ok_0.interpreter_args.len() == 0
    &&& !begins_as_elf(contents) && !script ==> result is Ok && result->Ok_0.kind
        == ResolvedExecutableKind::Other && result->Ok_0.interpreter is None
        && result->Ok_0.interpreter_args.len() == 0
    &&& script ==> forall|line: Seq<u8>| #[trigger]
        begins_with_line(contents, line) ==> {
            let words = text::words(vstd::utf8::decode_utf8(line));
            &&& !vstd::utf8::valid_utf8(line) ==> result == Err::<ShapeModel, _>(
                ErrorModel::ProfileParse(
                    "script command '"@ + paths::shown(path) + "' has non-UTF-8 shebang: "@
                        + bytes::utf8_complaint(line),
                ),
            )
            &&& vstd::utf8::valid_utf8(line) && words.len() == 0 ==> result == Err::<
                ShapeModel,
                _,
            >(
                ErrorModel::ProfileParse(
                    "script command '"@ + paths::shown(path) + "' has an empty shebang"@,
                ),
            )
            &&& vstd::utf8::valid_utf8(line) && words.len() > 0 ==> result is Ok
                && script_of_words(words, result->Ok_0)
        }
}

/// An ELF file is told by its first four bytes and a script by its first two;
/// the first line of a script, up to the line feed, names its interpreter and
/// the arguments of that.
pub proof fn law_shape_fits(path: Seq<u8>, contents: Seq<u8>)
    ensures
        shape_fits(path, contents, executable::shape_of(path, contents)),
{
    let elf = executable::elf_magic();
    let magic = executable::script_magic();
    let result = executable::shape_of(path, contents);
    if elf.is_prefix_of(contents) {
        let head = contents.subrange(0, 4);
        assert(head[0] == 127 && head[1] == 69 && head[2] == 76 && head[3] == 70);
    }
    if begins_as_elf(contents) {
        assert(elf =~= contents.subrange(0, 4));
    }
    if magic.is_prefix_of(contents) {
        let head = contents.subrange(0, 2);
        assert(head[0] == 35 && head[1] == 33);
    }
    if contents.len() >= 2 && contents[0] == 35 && contents[1] == 33 {
        assert(magic =~= contents.subrange(0, 2));
        let rest = contents.skip(2);
        text_laws::law_first_position(rest, 10);
        let p = bytes::first_position(rest, 10);
        let own = executable::shebang(contents);
        assert forall|line: Seq<u8>| #[trigger] begins_with_line(contents, line) implies line
            == own by {
            if p < line.len() {
                assert(rest[p] == 10);
                assert(line[p] == contents.subrange(2, 2 + line.len() as int)[p]);
            }
            if line.len() < p {
                assert(rest[line.len() as int] == contents[2 + line.len() as int]);
            }
            assert(line =~= own) by {
                assert forall|i: int| 0 <= i < line.len() implies line[i] == own[i] by {
                    assert(line[i] == contents.subrange(2, 2 + line.len() as int)[i]);
                }
            }
        }
    }
}

/// Some first line is always there.
pub proof fn law_scripts_have_a_line(contents: Seq<u8>)
    requires
        contents.len() >= 2,
        contents[0] == 35,
        contents[1] == 33,
    ensures
        exists|line: Seq<u8>| begins_with_line(contents, line),
{
    let rest = contents.skip(2);
    text_laws::law_first_position(rest, 10);
    let p = bytes::first_position(rest, 10);
    let line = rest.take(p);
    assert(contents.subrange(2, 2 + line.len() as int) =~= line);
    if p < rest.len() {
        assert(rest[p] == contents[2 + p]);
    }
    assert(begins_with_line(contents, line));
}

/// The text gives the bytes in hexadecimal: for each byte the digit for its
/// sixteens, then the digit for its ones.
pub open spec fn spells(digits: Seq<char>, b: Seq<u8>) -> bool {
    &&& digits.len() == 2 * b.len()
    &&& forall|i: int|
        0 <= i < b.len() ==> {
            &&& digits[2 * i] == "0123456789abcdef"@[(#[trigger] b[i]) as int / 16]
            &&& digits[2 * i + 1] == "0123456789abcdef"@[b[i] as int % 16]
        }
}

/// Bytes are spelled in hexadecimal.
pub proof fn law_hex_spells(b: Seq<u8>)
    ensures
        spells(executable::hex(b), b),
    decreases b.len(),
{
    reveal_strlit("0123456789abcdef");
    if b.len() > 0 {
        let front = b.drop_last();
        let n = b.len() - 1;
        law_hex_spells(front);
        let all = executable::hex(b);
        let before = executable::hex(front);
        assert forall|i: int| 0 <= i < b.len() implies {
            &&& all[2 * i] == "0123456789abcdef"@[(#[trigger] b[i]) as int / 16]
            &&& all[2 * i + 1] == "0123456789abcdef"@[b[i] as int % 16]
        } by {
            if i < n {
                assert(front[i] == b[i]);
                assert(all[2 * i] == before[2 * i]);
                assert(all[2 * i + 1] == before[2 * i + 1]);
            } else {
                lemma_hex_digit(b[n] as nat / 16);
                lemma_hex_digit(b[n] as nat % 16);
            }
        }
    }
}

proof fn lemma_hex_digit(n: nat)
    requires
        n < 16,
    ensures
        executable::hex_digit(n) == "0123456789abcdef"@[n as int],
{
    reveal_strlit("0123456789abcdef");
}

// ---------------------------------------------------------------------------
// Inspection
// ---------------------------------------------------------------------------

/// Somebody may execute the file: its owner, its group, or the others.
pub open spec fn has_execute_bit(mode: u32) -> bool {
    mode & 64 != 0 || mode & 8 != 0 || mode & 1 != 0
}

/// The match is the file at `path` with the given facts and contents.
pub open spec fn match_of(
    m: MatchModel,
    path: Seq<u8>,
    facts: FileFacts,
    contents: Seq<u8>,
) -> bool {
    &&& m.canonical_path == path
    &&& m.dev == facts.dev
    &&& m.ino == facts.ino
    &&& m.size == facts.size
    &&& m.mtime_nanos == facts.mtime * 1_000_000_000 + facts.mtime_nsec
    &&& spells(m.sha256, executable::sha256(contents))
    &&& shape_fits(path, contents, Ok(m.shape))
}

/// The failure names the action, the file and the reason.
pub open spec fn failed_to(
    outcome: InspectedModel,
    action: Seq<char>,
    path: Seq<u8>,
    reason: Seq<char>,
) -> bool {
    outcome == InspectedModel::Failed(
        ErrorModel::ProfileParse(
            "failed to "@ + action + " command candidate '"@ + paths::shown(path) + "': "@ + reason,
        ),
    )
}

/// What an inspection comes to, reply by reply.
pub open spec fn inspection_fits(
    candidate: Seq<u8>,
    stat: StatModel,
    canonical: Result<Seq<u8>, Seq<char>>,
    facts: Result<FileFacts, Seq<char>>,
    contents: Result<Seq<u8>, Seq<char>>,
    outcome: InspectedModel,
) -> bool {
    let runnable = stat is Found && stat->Found_0.is_file && has_execute_bit(stat->Found_0.mode);
    &&& outcome is Nothing <==> !runnable && !(stat is Failed)
    &&& stat is Failed ==> outcome == InspectedModel::Failed(
        ErrorModel::ProfileParse(stat->Failed_0),
    )
    &&& runnable && canonical is Err ==> failed_to(
        outcome,
        "canonicalize"@,
        candidate,
        canonical->Err_0,
    )
    &&& runnable && canonical is Ok && facts is Err ==> failed_to(
        outcome,
        "stat"@,
        canonical->Ok_0,
        facts->Err_0,
    )
    &&& runnable && canonical is Ok && facts is Ok && contents is Err ==> failed_to(
        outcome,
        "hash"@,
        canonical->Ok_0,
        contents->Err_0,
    )
    &&& runnable && canonical is Ok && facts is Ok && contents is Ok ==> {
        &&& outcome matches InspectedModel::Match(m) ==> match_of(
            m,
            canonical->Ok_0,
            facts->Ok_0,
            contents->Ok_0,
        )
        &&& outcome matches InspectedModel::Failed(error) ==> shape_fits(
            canonical->Ok_0,
            contents->Ok_0,
            Err(error),
        )
    }
    &&& outcome is Match ==> runnable && canonical is Ok && facts is Ok && contents is Ok
}

/// Inspecting a candidate finds a match exactly where it is a regular file that
/// somebody may execute and nothing goes wrong; the match has the place, device,
/// inode, size, time, digest and shape of the file that it really is.
pub proof fn law_inspection(
    candidate: Seq<u8>,
    stat: StatModel,
    canonical: Result<Seq<u8>, Seq<char>>,
    facts: Result<FileFacts, Seq<char>>,
    contents: Result<Seq<u8>, Seq<char>>,
)
    ensures
        ({
            let s1 = inspect::inspected_next(
                candidate,
                InspectionModel::Stat,
                ReplyModel::Stat(stat),
            );
            let s2 = inspect::inspected_next(candidate, s1, ReplyModel::Canonical(canonical));
            let s3 = inspect::inspected_next(candidate, s2, ReplyModel::CanonicalStat(facts));
            let s4 = inspect::inspected_next(candidate, s3, ReplyModel::Contents(contents));
            s4 matches InspectionModel::Done(outcome) && inspection_fits(
                candidate,
                stat,
                canonical,
                facts,
                contents,
                outcome,
            )
        }),
{
    inspect::law_inspection_settles(candidate, stat, canonical, facts, contents);
    if let StatModel::Found(found) = stat {
        let mode = found.mode;
        assert((mode & 0o111 != 0) == (mode & 64 != 0 || mode & 8 != 0 || mode & 1 != 0))
            by (bit_vector);
    }
    if canonical is Ok && contents is Ok {
        law_shape_fits(canonical->Ok_0, contents->Ok_0);
        law_hex_spells(executable::sha256(contents->Ok_0));
    }
}

/// A reply to a question that was not asked is passed over, and an inspection
/// that has come to its end stays there.
pub proof fn law_other_replies_change_nothing(
    candidate: Seq<u8>,
    state: InspectionModel,
    reply: ReplyModel,
)
    requires
        !(state is Stat && reply is Stat),
        !(state is Canonicalize && reply is Canonical),
        !(state is StatCanonical && reply is CanonicalStat),
        !(state is Read && reply is Contents),
    ensures
        inspect::inspected_next(candidate, state, reply) == state,
{
}

// ---------------------------------------------------------------------------
// Where to look
// ---------------------------------------------------------------------------

/// The part at a position is not empty.
pub open spec fn filled_at(parts: Seq<Seq<u8>>) -> spec_fn(int) -> bool {
    |p: int| parts[p].len() > 0
}

proof fn lemma_filled(parts: Seq<Seq<u8>>) -> (at: Seq<int>)
    ensures
        positions::lists_positions(at, parts.len() as int, filled_at(parts)),
        at.len() == parts.flat_map(resolve::path_entry()).len(),
        forall|i: int|
            0 <= i < at.len() ==> #[trigger] parts.flat_map(resolve::path_entry())[i] == (
            SearchDirModel { path: parts[at[i]], explicit: false }),
    decreases parts.len(),
{
    let entry = resolve::path_entry();
    if parts.len() == 0 {
        assert(parts.map_values(entry) =~= Seq::empty());
        assert(parts.flat_map(entry) =~= Seq::empty());
        positions::lemma_no_position(filled_at(parts));
        Seq::empty()
    } else {
        let n = parts.len() - 1;
        let front = parts.take(n);
        let before = lemma_filled(front);
        parts.lemma_flat_map_take_append(entry, n);
        assert(parts.take(n + 1) =~= parts);
        assert forall|p: int| 0 <= p < n implies filled_at(front)(p) == #[trigger] filled_at(
            parts,
        )(p) by {
            assert(front[p] == parts[p]);
        }
        let at = positions::lemma_one_more(before, n, filled_at(front), filled_at(parts));
        let all = parts.flat_map(entry);
        assert(all == front.flat_map(entry) + entry(parts[n]));
        assert forall|i: int| 0 <= i < at.len() implies #[trigger] all[i] == (SearchDirModel {
            path: parts[at[i]],
            explicit: false,
        }) by {
            if i < before.len() {
                assert(at[i] == before[i]);
                assert(front[before[i]] == parts[at[i]]);
                assert(all[i] == front.flat_map(entry)[i]);
            }
        }
        at
    }
}

/// The entries of a search path: the parts between its colons.
pub open spec fn entries_of(path_env: Option<Seq<u8>>) -> Seq<Seq<u8>> {
    match path_env {
        Some(list) => bytes::split(list, 58),
        None => Seq::empty(),
    }
}

/// The directories are, in order, those entries of the search path that are not
/// empty, and the configured ones.
pub open spec fn dirs_fit(
    configured: Seq<Seq<char>>,
    entries: Seq<Seq<u8>>,
    at: Seq<int>,
    dirs: Seq<SearchDirModel>,
) -> bool {
    &&& positions::lists_positions(at, entries.len() as int, filled_at(entries))
    &&& dirs.len() == at.len() + configured.len()
    &&& forall|i: int|
        0 <= i < at.len() ==> !(#[trigger] dirs[i]).explicit && dirs[i].path == entries[at[i]]
    &&& forall|i: int|
        at.len() <= i < dirs.len() ==> (#[trigger] dirs[i]).explicit && dirs[i].path
            == vstd::utf8::encode_utf8(configured[i - at.len()])
}

/// The first configured directory that is none, and what is said of it.
pub open spec fn bad_dir_at(
    configured: Seq<Seq<char>>,
    statuses: Seq<DirStatusModel>,
    i: int,
    error: ErrorModel,
) -> bool {
    let path = paths::shown(vstd::utf8::encode_utf8(configured[i]));
    &&& 0 <= i < configured.len()
    &&& forall|j: int| 0 <= j < i ==> (#[trigger] statuses[j]) is Directory
    &&& match statuses[i] {
        DirStatusModel::Directory => false,
        DirStatusModel::NotDirectory => error == ErrorModel::ProfileParse(
            "command_policies.executable_dirs entry '"@ + path + "' is not a directory"@,
        ),
        DirStatusModel::Unreadable(reason) => error == ErrorModel::ProfileParse(
            "command_policies.executable_dirs entry '"@ + path + "' is not readable: "@ + reason,
        ),
    }
}

proof fn lemma_dir_errors(configured: Seq<Seq<char>>, statuses: Seq<DirStatusModel>)
    requires
        configured.len() == statuses.len(),
    ensures
        match resolve::first_dir_error(configured, statuses) {
            None => forall|i: int| 0 <= i < statuses.len() ==> (#[trigger] statuses[i]) is Directory,
            Some(error) => exists|i: int| #[trigger] bad_dir_at(configured, statuses, i, error),
        },
    decreases configured.len(),
{
    if configured.len() > 0 {
        let dirs = configured.skip(1);
        let rest = statuses.skip(1);
        lemma_dir_errors(dirs, rest);
        if let Some(error) = resolve::dir_error(configured[0], statuses[0]) {
            assert(bad_dir_at(configured, statuses, 0, error));
        } else if let Some(error) = resolve::first_dir_error(dirs, rest) {
            let i = choose|i: int| #[trigger] bad_dir_at(dirs, rest, i, error);
            assert(dirs[i] == configured[i + 1] && rest[i] == statuses[i + 1]);
            assert forall|j: int| 0 <= j < i + 1 implies (#[trigger] statuses[j]) is Directory by {
                if j > 0 {
                    assert(rest[j - 1] == statuses[j]);
                }
            }
            assert(bad_dir_at(configured, statuses, i + 1, error));
        } else {
            assert forall|i: int| 0 <= i < statuses.len() implies (
            #[trigger] statuses[i]) is Directory by {
                if i > 0 {
                    assert(rest[i - 1] == statuses[i]);
                }
            }
        }
    }
}

/// Commands are looked for in the entries of the search path that are not
/// empty, then in the configured directories; a configured one that is no
/// directory is an error, and the first such decides.
pub proof fn law_search_dirs(
    config: PoliciesModel,
    path_env: Option<Seq<u8>>,
    statuses: Seq<DirStatusModel>,
)
    requires
        statuses.len() == config.executable_dirs.len(),
    ensures
        match resolve::search_dirs(config, path_env, statuses) {
            Ok(dirs) => {
                &&& forall|i: int| 0 <= i < statuses.len() ==> (#[trigger] statuses[i]) is Directory
                &&& exists|at: Seq<int>| #[trigger]
                    dirs_fit(config.executable_dirs, entries_of(path_env), at, dirs)
            },
            Err(error) => exists|i: int| #[trigger]
                bad_dir_at(config.executable_dirs, statuses, i, error),
        },
{
    lemma_dir_errors(config.executable_dirs, statuses);
    let entries = entries_of(path_env);
    let at = lemma_filled(entries);
    if let Ok(dirs) = resolve::search_dirs(config, path_env, statuses) {
        let named = resolve::path_dirs(path_env);
        if path_env is None {
            assert(entries.map_values(resolve::path_entry()) =~= Seq::empty());
            assert(entries.flat_map(resolve::path_entry()) =~= Seq::empty());
        }
        assert(named == entries.flat_map(resolve::path_entry()));
        assert forall|i: int| 0 <= i < at.len() implies !(#[trigger] dirs[i]).explicit
            && dirs[i].path == entries[at[i]] by {
            assert(dirs[i] == named[i]);
        }
        assert(dirs_fit(config.executable_dirs, entries, at, dirs));
    }
}

/// A bound command stands for its executable alone; any other for the file of
/// its name in every search directory, in their order.
pub proof fn law_candidates(name: Seq<char>, command: CommandModel, dirs: Seq<SearchDirModel>)
    ensures
        command.executable is Some ==> resolve::candidates(name, command, dirs) == seq![
            vstd::utf8::encode_utf8(command.executable->0),
        ],
        command.executable is None ==> {
            let list = resolve::candidates(name, command, dirs);
            &&& list.len() == dirs.len()
            &&& forall|i: int|
                0 <= i < dirs.len() ==> #[trigger] list[i] == paths::joined_path(
                    dirs[i].path,
                    vstd::utf8::encode_utf8(name),
                )
        },
{
}

} // verus!
