//! What resolution says of the commands, in terms of what was found.
use vstd::prelude::*;

use crate::command_policy::executable::ResolvedExecutableKind;
use crate::command_policy::inspect::{InspectedModel, MatchModel};
use crate::command_policy::report::FindingModel;
use crate::command_policy::resolve;
use crate::command_policy::resolve::{BinaryModel, SearchDirModel};
use crate::command_policy::{CommandModel, PoliciesModel};
use crate::error;
use crate::error::ErrorModel;
use crate::name_map;
use crate::paths;
use crate::positions;
use crate::text;

verus! {

// ---------------------------------------------------------------------------
// Matches
// ---------------------------------------------------------------------------

/// The outcome at a position is a match.
pub open spec fn matches_at(outcomes: Seq<InspectedModel>) -> spec_fn(int) -> bool {
    |p: int| outcomes[p] is Match
}

/// The same file on the same device.
pub open spec fn same_file(a: MatchModel, b: MatchModel) -> bool {
    a.dev == b.dev && a.ino == b.ino
}

/// The match list holds the matches among the outcomes, in their order.
proof fn lemma_found_positions(outcomes: Seq<InspectedModel>) -> (at: Seq<int>)
    ensures
        positions::lists_positions(at, outcomes.len() as int, matches_at(outcomes)),
        at.len() == outcomes.flat_map(resolve::found()).len(),
        forall|i: int|
            0 <= i < at.len() ==> outcomes[#[trigger] at[i]] == InspectedModel::Match(
                outcomes.flat_map(resolve::found())[i],
            ),
    decreases outcomes.len(),
{
    let found = resolve::found();
    if outcomes.len() == 0 {
        assert(outcomes.map_values(found) =~= Seq::empty());
        assert(outcomes.flat_map(found) =~= Seq::empty());
        positions::lemma_no_position(matches_at(outcomes));
        Seq::empty()
    } else {
        let n = outcomes.len() - 1;
        let front = outcomes.take(n);
        let before = lemma_found_positions(front);
        outcomes.lemma_flat_map_take_append(found, n);
        assert(outcomes.take(n + 1) =~= outcomes);
        assert(forall|i: int| 0 <= i < n ==> front[i] == outcomes[i]);
        assert forall|p: int| 0 <= p < n implies matches_at(front)(p) == #[trigger] matches_at(
            outcomes,
        )(p) by {
            assert(front[p] == outcomes[p]);
        }
        let at = positions::lemma_one_more(before, n, matches_at(front), matches_at(outcomes));
        let all = outcomes.flat_map(found);
        assert(all == front.flat_map(found) + found(outcomes[n]));
        assert forall|i: int| 0 <= i < at.len() implies outcomes[#[trigger] at[i]]
            == InspectedModel::Match(all[i]) by {
            if i < before.len() {
                assert(at[i] == before[i]);
                assert(front[before[i]] == outcomes[at[i]]);
                assert(all[i] == front.flat_map(found)[i]);
            }
        }
        at
    }
}

/// The file at a position of the list is neither the selected one nor one that
/// stands before it in the list.
pub open spec fn new_file_at(selected: MatchModel, list: Seq<MatchModel>) -> spec_fn(int) -> bool {
    |p: int|
        !same_file(list[p], selected) && forall|q: int|
            0 <= q < p ==> !same_file(#[trigger] list[q], list[p])
}

proof fn lemma_other_positions(selected: MatchModel, list: Seq<MatchModel>) -> (at: Seq<int>)
    ensures
        positions::lists_positions(at, list.len() as int, new_file_at(selected, list)),
        at.len() == resolve::other_paths(selected, list).len(),
        forall|i: int|
            0 <= i < at.len() ==> list[#[trigger] at[i]].canonical_path == resolve::other_paths(
                selected,
                list,
            )[i],
    decreases list.len(),
{
    if list.len() == 0 {
        positions::lemma_no_position(new_file_at(selected, list));
        Seq::empty()
    } else {
        let n = list.len() - 1;
        let front = list.drop_last();
        let before = lemma_other_positions(selected, front);
        assert(forall|i: int| 0 <= i < n ==> front[i] == list[i]);
        assert forall|p: int| 0 <= p < n implies new_file_at(selected, front)(p)
            == #[trigger] new_file_at(selected, list)(p) by {
            assert(front[p] == list[p]);
            if new_file_at(selected, front)(p) {
                assert forall|q: int| 0 <= q < p implies !same_file(#[trigger] list[q], list[p]) by {
                    assert(!same_file(front[q], front[p]));
                }
            }
            if new_file_at(selected, list)(p) {
                assert forall|q: int| 0 <= q < p implies !same_file(
                    #[trigger] front[q],
                    front[p],
                ) by {
                    assert(!same_file(list[q], list[p]));
                }
            }
        }
        if resolve::lists_inode(front, list.last()) {
            let q = choose|q: int|
                0 <= q < front.len() && #[trigger] resolve::same_inode(front[q], list.last());
            assert(same_file(list[q], list[n]));
            assert(!new_file_at(selected, list)(n));
        } else {
            assert forall|q: int| 0 <= q < n implies !same_file(#[trigger] list[q], list[n]) by {
                assert(!resolve::same_inode(front[q], list.last()));
            }
        }
        let at = positions::lemma_one_more(
            before,
            n,
            new_file_at(selected, front),
            new_file_at(selected, list),
        );
        assert forall|i: int| 0 <= i < at.len() implies list[#[trigger] at[i]].canonical_path
            == resolve::other_paths(selected, list)[i] by {
            if i < before.len() {
                assert(at[i] == before[i]);
                assert(front[before[i]] == list[at[i]]);
            }
        }
        at
    }
}

/// The outcome at a position behind `k` is a match of a file that no match
/// from `k` on has shown before.
pub open spec fn another_file_at(outcomes: Seq<InspectedModel>, k: int) -> spec_fn(int) -> bool {
    |p: int|
        k < p && outcomes[p] is Match && forall|q: int|
            k <= q < p && #[trigger] outcomes[q] is Match ==> !same_file(
                outcomes[q]->Match_0,
                outcomes[p]->Match_0,
            )
}

/// `paths` are the real places of the matches at `positions`.
pub open spec fn places_of(
    outcomes: Seq<InspectedModel>,
    positions: Seq<int>,
    paths: Seq<Seq<u8>>,
) -> bool {
    &&& paths.len() == positions.len()
    &&& forall|i: int|
        0 <= i < positions.len() ==> #[trigger] paths[i]
            == outcomes[positions[i]]->Match_0.canonical_path
}

/// The first match is at `k`.
pub open spec fn first_match(outcomes: Seq<InspectedModel>, k: int) -> bool {
    &&& 0 <= k < outcomes.len()
    &&& outcomes[k] is Match
    &&& forall|q: int| 0 <= q < k ==> !(#[trigger] outcomes[q] is Match)
}

proof fn lemma_searched(outcomes: Seq<InspectedModel>, k: int) -> (positions: Seq<int>)
    requires
        outcomes.flat_map(resolve::found()).len() > 0,
        k == first_place(outcomes),
    ensures
        ({
            let matches = outcomes.flat_map(resolve::found());
            &&& first_match(outcomes, k)
            &&& outcomes[k] == InspectedModel::Match(matches[0])
            &&& positions::lists_positions(positions, outcomes.len() as int, another_file_at(outcomes, k))
            &&& places_of(
                outcomes,
                positions,
                resolve::other_paths(matches[0], matches.skip(1)),
            )
        }),
{
    let matches = outcomes.flat_map(resolve::found());
    let rest = matches.skip(1);
    let at = lemma_found_positions(outcomes);
    assert(first_match(outcomes, at[0])) by {
        assert(matches_at(outcomes)(at[0]));
        assert forall|q: int| 0 <= q < at[0] implies !(#[trigger] outcomes[q] is Match) by {
            if outcomes[q] is Match {
                assert(matches_at(outcomes)(q));
                let i = at.index_of(q);
                if i > 0 {
                    assert(at[0] < at[i]);
                }
            }
        }
    }
    assert(first_match(outcomes, k));
    assert(k == at[0]) by {
        if k < at[0] {
            assert(!(outcomes[k] is Match));
        }
        if at[0] < k {
            assert(!(outcomes[at[0]] is Match));
        }
    }
    let picks = lemma_other_positions(matches[0], rest);
    let positions = picks.map_values(|i: int| at[i + 1]);
    let wanted = another_file_at(outcomes, k);
    assert forall|i: int| 0 <= i < picks.len() implies positions[i] == at[picks[i] + 1] && 0
        <= picks[i] < rest.len() by {
        assert(0 <= picks[i] < rest.len());
    }
    assert forall|i: int, j: int| 0 <= i < j < positions.len() implies #[trigger] positions[i]
        < #[trigger] positions[j] by {
        assert(picks[i] < picks[j]);
        assert(at[picks[i] + 1] < at[picks[j] + 1]);
    }
    assert forall|i: int| 0 <= i < positions.len() implies 0 <= #[trigger] positions[i]
        < outcomes.len() && wanted(positions[i]) by {
        let m = picks[i];
        let p = at[m + 1];
        assert(new_file_at(matches[0], rest)(m));
        assert(at[0] < at[m + 1]);
        assert(matches_at(outcomes)(p));
        assert(outcomes[p] == InspectedModel::Match(matches[m + 1]));
        assert(rest[m] == matches[m + 1]);
        assert forall|q: int| k <= q < p && #[trigger] outcomes[q] is Match implies !same_file(
            outcomes[q]->Match_0,
            outcomes[p]->Match_0,
        ) by {
            assert(matches_at(outcomes)(q));
            let s = at.index_of(q);
            assert(at[s] == q);
            assert(outcomes[at[s]] == InspectedModel::Match(matches[s]));
            if s >= m + 1 {
                if s > m + 1 {
                    assert(at[m + 1] < at[s]);
                }
            }
            if s > 0 {
                assert(rest[s - 1] == matches[s]);
                assert(!same_file(rest[s - 1], rest[m]));
            }
        }
    }
    assert forall|p: int| 0 <= p < outcomes.len() && #[trigger] wanted(p) implies positions.contains(
        p,
    ) by {
        assert(matches_at(outcomes)(p));
        let s = at.index_of(p);
        assert(at[s] == p);
        assert(outcomes[at[s]] == InspectedModel::Match(matches[s]));
        assert(s > 0);
        let m = s - 1;
        assert(rest[m] == matches[s]);
        assert(outcomes[k] is Match);
        assert(outcomes[at[0]] == InspectedModel::Match(matches[0]));
        assert(!same_file(rest[m], matches[0])) by {
            assert(!same_file(outcomes[k]->Match_0, outcomes[p]->Match_0));
        }
        assert forall|q: int| 0 <= q < m implies !same_file(#[trigger] rest[q], rest[m]) by {
            let t = at[q + 1];
            assert(at[0] < at[q + 1]);
            assert(at[q + 1] < at[s]);
            assert(outcomes[at[q + 1]] == InspectedModel::Match(matches[q + 1]));
            assert(outcomes[t] is Match);
            assert(rest[q] == matches[q + 1]);
        }
        assert(new_file_at(matches[0], rest)(m));
        let i = picks.index_of(m);
        assert(picks[i] == m);
        assert(positions[i] == p);
    }
    let others = resolve::other_paths(matches[0], rest);
    assert forall|i: int| 0 <= i < positions.len() implies #[trigger] others[i]
        == outcomes[positions[i]]->Match_0.canonical_path by {
        let m = picks[i];
        assert(rest[m].canonical_path == others[i]);
        assert(rest[m] == matches[m + 1]);
        assert(outcomes[at[m + 1]] == InspectedModel::Match(matches[m + 1]));
    }
    positions
}

/// Where the first match is.
spec fn first_place(outcomes: Seq<InspectedModel>) -> int {
    choose|k: int| first_match(outcomes, k)
}

proof fn lemma_first_exists(outcomes: Seq<InspectedModel>)
    ensures
        outcomes.flat_map(resolve::found()).len() > 0 <==> exists|k: int|
            #[trigger] first_match(outcomes, k),
        (exists|k: int| 0 <= k < outcomes.len() && #[trigger] outcomes[k] is Match)
            <==> exists|k: int| #[trigger] first_match(outcomes, k),
{
    let at = lemma_found_positions(outcomes);
    if at.len() > 0 {
        assert(matches_at(outcomes)(at[0]));
        assert forall|q: int| 0 <= q < at[0] implies !(#[trigger] outcomes[q] is Match) by {
            if outcomes[q] is Match {
                assert(matches_at(outcomes)(q));
                let i = at.index_of(q);
                if i > 0 {
                    assert(at[0] < at[i]);
                }
            }
        }
        assert(first_match(outcomes, at[0]));
    }
    if exists|k: int| 0 <= k < outcomes.len() && #[trigger] outcomes[k] is Match {
        let k = choose|k: int| 0 <= k < outcomes.len() && #[trigger] outcomes[k] is Match;
        assert(matches_at(outcomes)(k));
        assert(at.contains(k));
    }
}

// ---------------------------------------------------------------------------
// One command
// ---------------------------------------------------------------------------

/// The resolved command is the file of the match, in every respect.
pub open spec fn describes(binary: BinaryModel, name: Seq<char>, m: MatchModel) -> bool {
    &&& binary.name == name
    &&& binary.canonical_path == m.canonical_path
    &&& binary.dev == m.dev
    &&& binary.ino == m.ino
    &&& binary.size == m.size
    &&& binary.mtime_nanos == m.mtime_nanos
    &&& binary.sha256 == m.sha256
    &&& binary.shape == m.shape
}

/// The position among the outcomes of the match that a command resolves to: the
/// only one for a command that is bound to an executable, else the first match.
pub open spec fn chosen_at(command: CommandModel, outcomes: Seq<InspectedModel>, k: int) -> bool {
    if command.executable is Some {
        k == 0 && outcomes[0] is Match
    } else {
        first_match(outcomes, k)
    }
}

/// The resolved command is the one at the chosen position, and reported with
/// the real places of the other files of its name; a bound command has none.
pub open spec fn resolves_to(
    name: Seq<char>,
    command: CommandModel,
    outcomes: Seq<InspectedModel>,
    k: int,
    positions: Seq<int>,
    binary: BinaryModel,
) -> bool {
    &&& chosen_at(command, outcomes, k)
    &&& describes(binary, name, outcomes[k]->Match_0)
    &&& command.executable is Some ==> positions.len() == 0
    &&& command.executable is None ==> positions::lists_positions(
        positions,
        outcomes.len() as int,
        another_file_at(outcomes, k),
    )
    &&& places_of(outcomes, positions, binary.duplicate_paths)
}

/// Nothing stands in the way of resolving the command.
pub open spec fn resolvable(
    command: CommandModel,
    dirs: Seq<SearchDirModel>,
    outcomes: Seq<InspectedModel>,
) -> bool {
    if command.executable is Some {
        outcomes[0] is Match
    } else {
        &&& exists|k: int| 0 <= k < outcomes.len() && #[trigger] outcomes[k] is Match
        &&& forall|k: int|
            0 <= k < outcomes.len() && dirs[k].explicit ==> !(#[trigger] outcomes[k] is Failed)
    }
}

proof fn lemma_trouble(
    name: Seq<char>,
    dirs: Seq<SearchDirModel>,
    outcomes: Seq<InspectedModel>,
)
    requires
        outcomes.len() == dirs.len(),
    ensures
        resolve::explicit_errors(name, dirs, outcomes).len() == 0 <==> forall|k: int|
            0 <= k < outcomes.len() && dirs[k].explicit ==> !(#[trigger] outcomes[k] is Failed),
    decreases dirs.len(),
{
    if dirs.len() > 0 {
        let n = dirs.len() - 1;
        let front = dirs.drop_last();
        let before = outcomes.drop_last();
        lemma_trouble(name, front, before);
        assert(forall|k: int| 0 <= k < n ==> front[k] == dirs[k] && before[k] == outcomes[k]);
        if resolve::explicit_errors(name, dirs, outcomes).len() == 0 {
            assert forall|k: int| 0 <= k < outcomes.len() && dirs[k].explicit implies !(
            #[trigger] outcomes[k] is Failed) by {
                if k < n {
                    assert(!(before[k] is Failed));
                }
            }
        }
        if forall|k: int|
            0 <= k < outcomes.len() && dirs[k].explicit ==> !(#[trigger] outcomes[k] is Failed) {
            assert(!(outcomes[n] is Failed && dirs[n].explicit));
            assert forall|k: int| 0 <= k < before.len() && front[k].explicit implies !(
            #[trigger] before[k] is Failed) by {
                assert(!(outcomes[k] is Failed));
            }
        }
    }
}

/// The only thing wrong with a single command that cannot be resolved.
pub open spec fn resolution_error(
    name: Seq<char>,
    command: CommandModel,
    dirs: Seq<SearchDirModel>,
    outcomes: Seq<InspectedModel>,
    error: ErrorModel,
) -> bool {
    if command.executable is Some {
        match outcomes[0] {
            InspectedModel::Failed(reason) => error == reason,
            _ => error == ErrorModel::ProfileParse(
                "command policy '"@ + name + "' executable '"@ + paths::shown(
                    vstd::utf8::encode_utf8(command.executable->0),
                ) + "' is not an executable file"@,
            ),
        }
    } else if forall|k: int|
        0 <= k < outcomes.len() && dirs[k].explicit ==> !(#[trigger] outcomes[k] is Failed) {
        error == ErrorModel::ProfileParse(
            "command policy '"@ + name + "' could not be resolved on PATH"@,
        )
    } else {
        exists|positions: Seq<int>, lines: Seq<Seq<char>>|
            {
                &&& positions::lists_positions(
                    positions,
                    outcomes.len() as int,
                    |k: int| dirs[k].explicit && outcomes[k] is Failed,
                )
                &&& #[trigger] trouble_lines(name, dirs, outcomes, positions, lines)
                &&& error == ErrorModel::ProfileParse(
                    "failed to inspect configured executable_dirs for command '"@ + name + "': "@
                        + text::joined(lines, "; "@),
                )
            }
    }
}

/// The lines say, in order, where inspecting a candidate failed and why.
pub open spec fn trouble_lines(
    name: Seq<char>,
    dirs: Seq<SearchDirModel>,
    outcomes: Seq<InspectedModel>,
    positions: Seq<int>,
    lines: Seq<Seq<char>>,
) -> bool {
    &&& lines.len() == positions.len()
    &&& forall|i: int|
        0 <= i < positions.len() ==> #[trigger] lines[i] == paths::shown(
            paths::joined_path(dirs[positions[i]].path, vstd::utf8::encode_utf8(name)),
        ) + ": "@ + error::error_line(outcomes[positions[i]]->Failed_0)
}

proof fn lemma_trouble_lines(
    name: Seq<char>,
    dirs: Seq<SearchDirModel>,
    outcomes: Seq<InspectedModel>,
) -> (at: Seq<int>)
    requires
        outcomes.len() == dirs.len(),
    ensures
        positions::lists_positions(
            at,
            outcomes.len() as int,
            |k: int| dirs[k].explicit && outcomes[k] is Failed,
        ),
        trouble_lines(
            name,
            dirs,
            outcomes,
            at,
            resolve::explicit_errors(name, dirs, outcomes),
        ),
    decreases dirs.len(),
{
    let condition = |k: int| dirs[k].explicit && outcomes[k] is Failed;
    if dirs.len() == 0 {
        positions::lemma_no_position(condition);
        Seq::empty()
    } else {
        let n = dirs.len() - 1;
        let front = dirs.drop_last();
        let before = outcomes.drop_last();
        let earlier = |k: int| front[k].explicit && before[k] is Failed;
        let some = lemma_trouble_lines(name, front, before);
        assert forall|p: int| 0 <= p < n implies earlier(p) == #[trigger] condition(p) by {
            assert(front[p] == dirs[p] && before[p] == outcomes[p]);
        }
        let at = positions::lemma_one_more(some, n, earlier, condition);
        let lines = resolve::explicit_errors(name, dirs, outcomes);
        assert forall|i: int| 0 <= i < at.len() implies #[trigger] lines[i] == paths::shown(
            paths::joined_path(dirs[at[i]].path, vstd::utf8::encode_utf8(name)),
        ) + ": "@ + error::error_line(outcomes[at[i]]->Failed_0) by {
            if i < some.len() {
                assert(at[i] == some[i]);
                assert(front[some[i]] == dirs[at[i]] && before[some[i]] == outcomes[at[i]]);
                assert(lines[i] == resolve::explicit_errors(name, front, before)[i]);
            }
        }
        at
    }
}

/// A single command resolves exactly if nothing stands in the way; what it
/// resolves to is the match at the chosen position, and otherwise the error
/// says what stood in the way.
pub proof fn law_selection(
    name: Seq<char>,
    command: CommandModel,
    dirs: Seq<SearchDirModel>,
    outcomes: Seq<InspectedModel>,
)
    requires
        outcomes.len() == (if command.executable is Some {
            1
        } else {
            dirs.len()
        }),
    ensures
        resolve::selection(name, command, dirs, outcomes) is Ok <==> resolvable(
            command,
            dirs,
            outcomes,
        ),
        match resolve::selection(name, command, dirs, outcomes) {
            Ok((m, others)) => exists|k: int, positions: Seq<int>| #[trigger]
                resolves_to(
                    name,
                    command,
                    outcomes,
                    k,
                    positions,
                    resolve::binary(name, m, others),
                ) && outcomes[k] == InspectedModel::Match(m),
            Err(error) => resolution_error(name, command, dirs, outcomes, error),
        },
{
    if let Some(executable) = command.executable {
        if let InspectedModel::Match(m) = outcomes[0] {
            assert(resolves_to(
                name,
                command,
                outcomes,
                0,
                Seq::empty(),
                resolve::binary(name, m, Seq::empty()),
            ));
        }
    } else {
        let matches = outcomes.flat_map(resolve::found());
        lemma_trouble(name, dirs, outcomes);
        lemma_first_exists(outcomes);
        if resolve::explicit_errors(name, dirs, outcomes).len() > 0 {
            let positions = lemma_trouble_lines(name, dirs, outcomes);
            let lines = resolve::explicit_errors(name, dirs, outcomes);
            assert(trouble_lines(name, dirs, outcomes, positions, lines));
        } else if matches.len() > 0 {
            let k = first_place(outcomes);
            let positions = lemma_searched(outcomes, k);
            assert(resolves_to(
                name,
                command,
                outcomes,
                k,
                positions,
                resolve::binary(
                    name,
                    matches[0],
                    resolve::other_paths(matches[0], matches.skip(1)),
                ),
            ));
        }
    }
}

// ---------------------------------------------------------------------------
// All commands
// ---------------------------------------------------------------------------

/// There is an outcome for every candidate: one for a command that is bound to
/// an executable, else one for every search directory.
pub open spec fn all_inspected(
    config: PoliciesModel,
    dirs: Seq<SearchDirModel>,
    outcomes: Seq<Seq<InspectedModel>>,
) -> bool {
    let names = name_map::ordered_keys(config.commands);
    &&& config.commands.dom().finite()
    &&& outcomes.len() == names.len()
    &&& forall|i: int|
        0 <= i < names.len() ==> (#[trigger] outcomes[i]).len() == (if config.commands[names[i]].executable is Some {
            1
        } else {
            dirs.len()
        })
}

/// Nothing stands in the way of resolving the command at a place in the order
/// of their names.
pub open spec fn resolvable_at(
    config: PoliciesModel,
    dirs: Seq<SearchDirModel>,
    outcomes: Seq<Seq<InspectedModel>>,
    i: int,
) -> bool {
    resolvable(config.commands[name_map::ordered_keys(config.commands)[i]], dirs, outcomes[i])
}

/// The command at a place in the order of their names resolved to the file that
/// was chosen for it.
pub open spec fn resolved_at(
    config: PoliciesModel,
    outcomes: Seq<Seq<InspectedModel>>,
    commands: Map<Seq<char>, BinaryModel>,
    i: int,
) -> bool {
    let name = name_map::ordered_keys(config.commands)[i];
    exists|k: int, positions: Seq<int>| #[trigger]
        resolves_to(
            name,
            config.commands[name],
            outcomes[i],
            k,
            positions,
            commands[name],
        )
}

/// The command at a place in the order of their names is the first that cannot
/// be resolved, and the error says why.
pub open spec fn fails_first_at(
    config: PoliciesModel,
    dirs: Seq<SearchDirModel>,
    outcomes: Seq<Seq<InspectedModel>>,
    error: ErrorModel,
    i: int,
) -> bool {
    let name = name_map::ordered_keys(config.commands)[i];
    &&& !resolvable_at(config, dirs, outcomes, i)
    &&& forall|j: int| 0 <= j < i ==> #[trigger] resolvable_at(config, dirs, outcomes, j)
    &&& resolution_error(name, config.commands[name], dirs, outcomes[i], error)
}

proof fn lemma_resolution(
    config: PoliciesModel,
    dirs: Seq<SearchDirModel>,
    outcomes: Seq<Seq<InspectedModel>>,
    n: nat,
)
    requires
        all_inspected(config, dirs, outcomes),
        n <= outcomes.len(),
    ensures
        match resolve::resolution(config, dirs, outcomes, n) {
            Ok(binaries) => {
                &&& forall|name: Seq<char>| #[trigger]
                    binaries.commands.dom().contains(name) <==> name_map::ordered_keys(
                        config.commands,
                    ).take(n as int).contains(name)
                &&& forall|i: int|
                    0 <= i < n ==> #[trigger] resolved_at(config, outcomes, binaries.commands, i)
                &&& forall|i: int|
                    0 <= i < n ==> #[trigger] resolvable_at(config, dirs, outcomes, i)
            },
            Err(error) => exists|i: int|
                0 <= i < n && #[trigger] fails_first_at(config, dirs, outcomes, error, i),
        },
    decreases n,
{
    let names = name_map::ordered_keys(config.commands);
    if n > 0 {
        let i = n - 1;
        let name = names[i];
        let command = config.commands[name];
        lemma_resolution(config, dirs, outcomes, i as nat);
        assert(outcomes[i].len() == (if command.executable is Some {
            1
        } else {
            dirs.len()
        }));
        law_selection(name, command, dirs, outcomes[i]);
        if let Ok(before) = resolve::resolution(config, dirs, outcomes, i as nat) {
            if let Ok((m, others)) = resolve::selection(name, command, dirs, outcomes[i]) {
                let after = before.commands.insert(name, resolve::binary(name, m, others));
                assert(names.take(n as int) =~= names.take(i).push(name));
                assert forall|x: Seq<char>| #[trigger] after.dom().contains(x)
                    <==> names.take(n as int).contains(x) by {
                    vstd::seq_lib::lemma_seq_contains_after_push(names.take(i), name, x);
                    assert(before.commands.dom().contains(x) <==> names.take(i).contains(x));
                }
                name_map::lemma_ordered_keys_of_finite(config.commands);
                name_map::lemma_ascending_distinct(names);
                assert forall|j: int| 0 <= j < n implies #[trigger] resolved_at(
                    config,
                    outcomes,
                    after,
                    j,
                ) by {
                    if j < i {
                        assert(names[j] != name);
                        assert(resolved_at(config, outcomes, before.commands, j));
                        assert(after[names[j]] == before.commands[names[j]]);
                    } else {
                        assert(after[name] == resolve::binary(name, m, others));
                    }
                }
                assert forall|j: int| 0 <= j < n implies #[trigger] resolvable_at(
                    config,
                    dirs,
                    outcomes,
                    j,
                ) by {}
            } else {
                let error = resolve::selection(name, command, dirs, outcomes[i])->Err_0;
                assert(fails_first_at(config, dirs, outcomes, error, i));
            }
        }
    }
}

/// Resolution succeeds exactly if nothing stands in the way of any command.
/// Then every policy-controlled command is resolved, and no other, and its
/// place, device, inode, size, time, digest and shape are those of the match
/// that was chosen for it: the outcome of inspecting the executable that it is
/// bound to, or else of the first candidate that is a match.
pub proof fn law_resolved_commands_are_the_chosen_files(
    config: PoliciesModel,
    dirs: Seq<SearchDirModel>,
    outcomes: Seq<Seq<InspectedModel>>,
)
    requires
        all_inspected(config, dirs, outcomes),
    ensures
        ({
            let n = name_map::ordered_keys(config.commands).len();
            let resolution = resolve::resolution(config, dirs, outcomes, n);
            &&& resolution is Ok <==> forall|i: int|
                0 <= i < n ==> #[trigger] resolvable_at(config, dirs, outcomes, i)
            &&& resolution matches Ok(binaries) ==> {
                &&& binaries.commands.dom() == config.commands.dom()
                &&& forall|i: int|
                    0 <= i < n ==> #[trigger] resolved_at(config, outcomes, binaries.commands, i)
            }
        }),
{
    let names = name_map::ordered_keys(config.commands);
    lemma_resolution(config, dirs, outcomes, names.len());
    name_map::lemma_ordered_keys_of_finite(config.commands);
    assert(names.take(names.len() as int) =~= names);
    if let Ok(binaries) = resolve::resolution(config, dirs, outcomes, names.len()) {
        assert forall|name: Seq<char>| #[trigger] binaries.commands.dom().contains(name)
            <==> config.commands.dom().contains(name) by {
            assert(names.contains(name) <==> config.commands.dom().contains(name));
        }
        assert(binaries.commands.dom() =~= config.commands.dom());
    }
}

/// Resolution that fails says what is wrong with the first command, in the
/// order of their names, that cannot be resolved.
pub proof fn law_first_failure_is_reported(
    config: PoliciesModel,
    dirs: Seq<SearchDirModel>,
    outcomes: Seq<Seq<InspectedModel>>,
)
    requires
        all_inspected(config, dirs, outcomes),
    ensures
        ({
            let n = name_map::ordered_keys(config.commands).len();
            resolve::resolution(config, dirs, outcomes, n) matches Err(error) ==> exists|i: int|
                0 <= i < n && #[trigger] fails_first_at(config, dirs, outcomes, error, i)
        }),
{
    lemma_resolution(config, dirs, outcomes, name_map::ordered_keys(config.commands).len());
}

// ---------------------------------------------------------------------------
// Warnings
// ---------------------------------------------------------------------------

/// What is worth knowing about a resolved command: other files of its name, and
/// the interpreter that it needs.
pub open spec fn worth_knowing(binary: BinaryModel, f: FindingModel) -> bool {
    let path = paths::shown(binary.canonical_path);
    ||| {
        &&& binary.duplicate_paths.len() > 0
        &&& f.code == "duplicate_path_command"@
        &&& f.message == "command policy '"@ + binary.name + "' resolved to "@ + path
            + ", but other executable '"@ + binary.name + "' entries exist on PATH: "@
            + text::joined(
            Seq::new(
                binary.duplicate_paths.len(),
                |i: int| paths::shown(binary.duplicate_paths[i]),
            ),
            ", "@,
        ) + "; only the resolved binary is controlled by this policy"@
    }
    ||| {
        &&& binary.shape.kind == ResolvedExecutableKind::ShebangScript
        &&& f.code == "script_entrypoint"@
        &&& f.message == "command policy '"@ + binary.name + "' resolved to script "@ + path
            + "; child policy must grant interpreter/runtime "@ + (
        if binary.shape.interpreter is Some {
            paths::shown(binary.shape.interpreter->0)
        } else {
            "<unknown>"@
        }) + " explicitly"@
    }
}

proof fn lemma_warnings_of(
    name: Seq<char>,
    m: MatchModel,
    others: Seq<Seq<u8>>,
    f: FindingModel,
)
    ensures
        resolve::resolution_warnings(name, m, others).contains(f) <==> worth_knowing(
            resolve::binary(name, m, others),
            f,
        ),
{
    let shown = others.map_values(|path: Seq<u8>| paths::shown(path));
    let listed = Seq::new(others.len(), |i: int| paths::shown(others[i]));
    assert(shown =~= listed);
    let list = resolve::resolution_warnings(name, m, others);
    if others.len() > 0 {
        assert(list[0].code == "duplicate_path_command"@);
        if m.shape.kind == ResolvedExecutableKind::ShebangScript {
            assert(list[1].code == "script_entrypoint"@);
        }
    } else if m.shape.kind == ResolvedExecutableKind::ShebangScript {
        assert(list[0].code == "script_entrypoint"@);
    }
    if worth_knowing(resolve::binary(name, m, others), f) {
        if others.len() > 0 && f.code == "duplicate_path_command"@ && f.message == list[0].message {
            assert(list[0] == f);
        } else if others.len() > 0 {
            assert(list[1] == f);
        } else {
            assert(list[0] == f);
        }
    }
}

proof fn lemma_warnings(
    config: PoliciesModel,
    dirs: Seq<SearchDirModel>,
    outcomes: Seq<Seq<InspectedModel>>,
    n: nat,
    f: FindingModel,
)
    requires
        config.commands.dom().finite(),
        n <= name_map::ordered_keys(config.commands).len(),
    ensures
        resolve::resolution(config, dirs, outcomes, n) matches Ok(binaries) ==> {
            let names = name_map::ordered_keys(config.commands);
            binaries.warnings.contains(f) <==> exists|i: int|
                0 <= i < n && worth_knowing(binaries.commands[#[trigger] names[i]], f)
        },
    decreases n,
{
    let names = name_map::ordered_keys(config.commands);
    if n > 0 {
        let i = n - 1;
        let name = names[i];
        lemma_warnings(config, dirs, outcomes, i as nat, f);
        name_map::lemma_ordered_keys_of_finite(config.commands);
        name_map::lemma_ascending_distinct(names);
        if let Ok(before) = resolve::resolution(config, dirs, outcomes, i as nat) {
            if let Ok((m, others)) = resolve::selection(
                name,
                config.commands[name],
                dirs,
                outcomes[i],
            ) {
                let own = resolve::resolution_warnings(name, m, others);
                let after = before.commands.insert(name, resolve::binary(name, m, others));
                let all = before.warnings + own;
                lemma_warnings_of(name, m, others, f);
                assert forall|j: int| 0 <= j < i implies before.commands[#[trigger] names[j]]
                    == after[names[j]] by {
                    assert(names[j] != name);
                }
                if before.warnings.contains(f) {
                    let j = choose|j: int|
                        0 <= j < i && worth_knowing(before.commands[#[trigger] names[j]], f);
                    assert(worth_knowing(after[names[j]], f));
                    assert(all[before.warnings.index_of(f)] == f);
                }
                if own.contains(f) {
                    assert(worth_knowing(after[names[i]], f));
                    assert(all[before.warnings.len() + own.index_of(f)] == f);
                }
                if all.contains(f) {
                    let k = all.index_of(f);
                    if k < before.warnings.len() {
                        assert(before.warnings[k] == f);
                    } else {
                        assert(own[k - before.warnings.len()] == f);
                    }
                }
                if exists|j: int| 0 <= j < n && worth_knowing(after[#[trigger] names[j]], f) {
                    let j = choose|j: int| 0 <= j < n && worth_knowing(after[#[trigger] names[j]], f);
                    if j < i {
                        assert(worth_knowing(before.commands[names[j]], f));
                    }
                }
            }
        }
    }
}

/// Resolution warns exactly of the resolved commands that have other files of
/// their name, and of those that need an interpreter.
pub proof fn law_resolution_warnings(
    config: PoliciesModel,
    dirs: Seq<SearchDirModel>,
    outcomes: Seq<Seq<InspectedModel>>,
    f: FindingModel,
)
    requires
        all_inspected(config, dirs, outcomes),
    ensures
        resolve::resolution(
            config,
            dirs,
            outcomes,
            name_map::ordered_keys(config.commands).len(),
        ) matches Ok(binaries) ==> {
            binaries.warnings.contains(f) <==> exists|name: Seq<char>| #[trigger]
                config.commands.dom().contains(name) && worth_knowing(binaries.commands[name], f)
        },
{
    let names = name_map::ordered_keys(config.commands);
    lemma_warnings(config, dirs, outcomes, names.len(), f);
    name_map::lemma_ordered_keys_of_finite(config.commands);
    if let Ok(binaries) = resolve::resolution(config, dirs, outcomes, names.len()) {
        if exists|i: int|
            0 <= i < names.len() && worth_knowing(binaries.commands[#[trigger] names[i]], f) {
            let i = choose|i: int|
                0 <= i < names.len() && worth_knowing(binaries.commands[#[trigger] names[i]], f);
            assert(names.contains(names[i]));
            assert(config.commands.dom().contains(names[i]));
        }
        if exists|name: Seq<char>| #[trigger]
            config.commands.dom().contains(name) && worth_knowing(binaries.commands[name], f) {
            let name = choose|name: Seq<char>| #[trigger]
                config.commands.dom().contains(name) && worth_knowing(binaries.commands[name], f);
            assert(names.contains(name));
            assert(worth_knowing(binaries.commands[names[names.index_of(name)]], f));
        }
    }
}

} // verus!
