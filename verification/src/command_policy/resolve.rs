//! Resolution of policy-controlled commands to executable files.
use vstd::prelude::*;

use crate::bytes;
use crate::command_policy::executable::{
    ResolvedExecutableKind, ResolvedExecutableShape, ShapeModel,
};
use crate::command_policy::inspect::{CommandMatch, Inspected, InspectedModel, MatchModel};
use crate::command_policy::report;
use crate::command_policy::report::{CommandPolicyFinding, FindingModel};
use crate::command_policy::validate;
use crate::command_policy::{CommandModel, CommandPoliciesConfig, CommandPolicyConfig, PoliciesModel};
use crate::error;
use crate::error::{ErrorModel, NonoError};
use crate::name_map;
use crate::name_map::NameMap;
use crate::paths;
use crate::paths::FilePath;
use crate::text;

verus! {

// ---------------------------------------------------------------------------
// Where to look
// ---------------------------------------------------------------------------

/// A directory in which commands are looked for.
#[derive(Debug, PartialEq, Eq)]
pub struct CommandSearchDir {
    pub path: FilePath,
    /// Named by the configuration, so that trouble in it is an error.
    pub explicit: bool,
}

/// What a search directory stands for.
#[verifier::ext_equal]
pub struct SearchDirModel {
    pub path: Seq<u8>,
    pub explicit: bool,
}

impl View for CommandSearchDir {
    type V = SearchDirModel;

    open spec fn view(&self) -> SearchDirModel {
        SearchDirModel { path: self.path@, explicit: self.explicit }
    }
}

/// What the file system says of a configured directory.
#[derive(Debug, PartialEq, Eq)]
pub enum DirStatus {
    Directory,
    NotDirectory,
    Unreadable(String),
}

/// What such a status stands for.
#[verifier::ext_equal]
pub enum DirStatusModel {
    Directory,
    NotDirectory,
    Unreadable(Seq<char>),
}

impl View for DirStatus {
    type V = DirStatusModel;

    open spec fn view(&self) -> DirStatusModel {
        match self {
            DirStatus::Directory => DirStatusModel::Directory,
            DirStatus::NotDirectory => DirStatusModel::NotDirectory,
            DirStatus::Unreadable(reason) => DirStatusModel::Unreadable(reason@),
        }
    }
}

/// Separates the directories of a search path.
pub const COLON: u8 = 58;

/// The search directory for one entry of a search path; an empty entry gives
/// none.
pub open spec fn path_entry() -> spec_fn(Seq<u8>) -> Seq<SearchDirModel> {
    |entry: Seq<u8>|
        if entry.len() == 0 {
            Seq::empty()
        } else {
            seq![SearchDirModel { path: entry, explicit: false }]
        }
}

/// The search directories of a search path.
pub open spec fn path_dirs(path_env: Option<Seq<u8>>) -> Seq<SearchDirModel> {
    match path_env {
        Some(list) => bytes::split(list, COLON).flat_map(path_entry()),
        None => Seq::empty(),
    }
}

/// What is wrong with a configured directory.
pub open spec fn dir_error(dir: Seq<char>, status: DirStatusModel) -> Option<ErrorModel> {
    let path = paths::shown(vstd::utf8::encode_utf8(dir));
    match status {
        DirStatusModel::Directory => None,
        DirStatusModel::NotDirectory => Some(
            ErrorModel::ProfileParse(
                "command_policies.executable_dirs entry '"@ + path + "' is not a directory"@,
            ),
        ),
        DirStatusModel::Unreadable(reason) => Some(
            ErrorModel::ProfileParse(
                "command_policies.executable_dirs entry '"@ + path + "' is not readable: "@
                    + reason,
            ),
        ),
    }
}

/// The first configured directory that is wrong decides.
pub open spec fn first_dir_error(
    dirs: Seq<Seq<char>>,
    statuses: Seq<DirStatusModel>,
) -> Option<ErrorModel>
    decreases dirs.len(),
{
    if dirs.len() == 0 {
        None
    } else {
        match dir_error(dirs[0], statuses[0]) {
            Some(error) => Some(error),
            None => first_dir_error(dirs.skip(1), statuses.skip(1)),
        }
    }
}

/// The search directories of a configuration.
pub open spec fn configured_dirs(dirs: Seq<Seq<char>>) -> Seq<SearchDirModel> {
    dirs.map_values(
        |dir: Seq<char>|
            SearchDirModel { path: vstd::utf8::encode_utf8(dir), explicit: true },
    )
}

/// Where commands are looked for: first the search path, then the configured
/// directories, each of which must be a directory.
pub open spec fn search_dirs(
    config: PoliciesModel,
    path_env: Option<Seq<u8>>,
    statuses: Seq<DirStatusModel>,
) -> Result<Seq<SearchDirModel>, ErrorModel> {
    match first_dir_error(config.executable_dirs, statuses) {
        Some(error) => Err(error),
        None => Ok(path_dirs(path_env) + configured_dirs(config.executable_dirs)),
    }
}

fn search_path_dirs(path_env: Option<&Vec<u8>>) -> (r: Vec<CommandSearchDir>)
    ensures
        text::views(r@) == path_dirs(
            match path_env {
                Some(list) => Some(list@),
                None => None,
            },
        ),
{
    let mut dirs: Vec<CommandSearchDir> = Vec::new();
    if let Some(list) = path_env {
        let mut entries = bytes::split_bytes(list.as_slice(), COLON);
        let ghost all = bytes::split(list@, COLON);
        let n = entries.len();
        assert(all.take(0).map_values(path_entry()) =~= Seq::empty());
        assert(all.take(0).flat_map(path_entry()) =~= Seq::empty());
        assert(text::views(dirs@) =~= Seq::empty());
        for i in 0..n
            invariant
                n == entries@.len(),
                n == all.len(),
                forall|j: int| i <= j < n ==> (#[trigger] entries@[j])@ == all[j],
                text::views(dirs@) == all.take(i as int).flat_map(path_entry()),
        {
            let mut entry: Vec<u8> = Vec::new();
            assert(entries@[i as int]@ == all[i as int]);
            std::mem::swap(&mut entry, &mut entries[i]);
            let ghost before = text::views(dirs@);
            let ghost value = entry@;
            proof {
                all.lemma_flat_map_take_append(path_entry(), i as int);
            }
            if entry.len() > 0 {
                dirs.push(CommandSearchDir { path: FilePath { bytes: entry }, explicit: false });
                assert(text::views(dirs@) =~= before.push(
                    SearchDirModel { path: value, explicit: false },
                ));
            }
        }
        assert(all.take(all.len() as int) =~= all);
    }
    assert(path_env is None ==> text::views(dirs@) =~= Seq::empty());
    dirs
}

/// Lists the directories in which commands are looked for. `path_env` is the
/// search path of the environment, and `statuses` says what each configured
/// directory is.
pub fn command_search_dirs(
    config: &CommandPoliciesConfig,
    path_env: Option<&Vec<u8>>,
    statuses: &Vec<DirStatus>,
) -> (r: Result<Vec<CommandSearchDir>, NonoError>)
    requires
        statuses@.len() == config@.executable_dirs.len(),
    ensures
        match r {
            Ok(dirs) => search_dirs(
                config@,
                match path_env {
                    Some(list) => Some(list@),
                    None => None,
                },
                text::views(statuses@),
            ) == Ok::<_, ErrorModel>(text::views(dirs@)),
            Err(error) => search_dirs(
                config@,
                match path_env {
                    Some(list) => Some(list@),
                    None => None,
                },
                text::views(statuses@),
            ) == Err::<Seq<SearchDirModel>, _>(error@),
        },
{
    let mut dirs = search_path_dirs(path_env);
    let ghost start = text::views(dirs@);
    let ghost names = config@.executable_dirs;
    let ghost replies = text::views(statuses@);
    assert(names.skip(0) =~= names);
    assert(replies.skip(0) =~= replies);
    assert(start + configured_dirs(names.take(0)) =~= start);
    for i in 0..config.executable_dirs.len()
        invariant
            names == config@.executable_dirs,
            replies == text::views(statuses@),
            statuses@.len() == names.len(),
            first_dir_error(names, replies) == first_dir_error(
                names.skip(i as int),
                replies.skip(i as int),
            ),
            text::views(dirs@) == start + configured_dirs(names.take(i as int)),
    {
        let dir = FilePath::from_text(config.executable_dirs[i].as_str());
        assert(names.skip(i as int)[0] == names[i as int]);
        assert(replies.skip(i as int)[0] == statuses@[i as int]@);
        assert(names.skip(i as int).skip(1) =~= names.skip(i + 1));
        assert(replies.skip(i as int).skip(1) =~= replies.skip(i + 1));
        match &statuses[i] {
            DirStatus::Unreadable(reason) => {
                return Err(
                    NonoError::ProfileParse(
                        text::cat4(
                            "command_policies.executable_dirs entry '",
                            dir.display().as_str(),
                            "' is not readable: ",
                            reason.as_str(),
                        ),
                    ),
                );
            },
            DirStatus::NotDirectory => {
                return Err(
                    NonoError::ProfileParse(
                        text::cat3(
                            "command_policies.executable_dirs entry '",
                            dir.display().as_str(),
                            "' is not a directory",
                        ),
                    ),
                );
            },
            DirStatus::Directory => {},
        }
        let ghost before = text::views(dirs@);
        let ghost value = dir@;
        dirs.push(CommandSearchDir { path: dir, explicit: true });
        proof {
            assert(text::views(dirs@) =~= before.push(
                SearchDirModel { path: value, explicit: true },
            ));
            assert(configured_dirs(names.take(i + 1)) =~= configured_dirs(
                names.take(i as int),
            ).push(SearchDirModel { path: value, explicit: true }));
        }
    }
    assert(names.take(names.len() as int) =~= names);
    Ok(dirs)
}

/// The files that a command may stand for, in the order of their precedence.
pub open spec fn candidates(
    name: Seq<char>,
    command: CommandModel,
    dirs: Seq<SearchDirModel>,
) -> Seq<Seq<u8>> {
    match command.executable {
        Some(executable) => seq![vstd::utf8::encode_utf8(executable)],
        None => dirs.map_values(
            |dir: SearchDirModel|
                paths::joined_path(dir.path, vstd::utf8::encode_utf8(name)),
        ),
    }
}

/// Lists the files that a command may stand for.
pub fn command_candidates(
    command_name: &str,
    command: &CommandPolicyConfig,
    dirs: &Vec<CommandSearchDir>,
) -> (r: Vec<FilePath>)
    ensures
        text::views(r@) == candidates(command_name@, command@, text::views(dirs@)),
{
    let mut out: Vec<FilePath> = Vec::new();
    if let Some(executable) = &command.executable {
        out.push(FilePath::from_text(executable.as_str()));
        assert(text::views(out@) =~= candidates(command_name@, command@, text::views(dirs@)));
        return out;
    }
    let name = FilePath::from_text(command_name);
    for i in 0..dirs.len()
        invariant
            name@ == vstd::utf8::encode_utf8(command_name@),
            out@.len() == i,
            forall|j: int|
                0 <= j < i ==> (#[trigger] out@[j])@ == paths::joined_path(
                    dirs@[j].path@,
                    name@,
                ),
    {
        out.push(dirs[i].path.join(&name));
    }
    assert(text::views(out@) =~= candidates(command_name@, command@, text::views(dirs@)));
    out
}

// ---------------------------------------------------------------------------
// What was found
// ---------------------------------------------------------------------------

/// The match of an inspection, if it came to one.
pub open spec fn found() -> spec_fn(InspectedModel) -> Seq<MatchModel> {
    |outcome: InspectedModel|
        match outcome {
            InspectedModel::Match(m) => seq![m],
            _ => Seq::empty(),
        }
}

/// The errors in directories that the configuration names.
pub open spec fn explicit_errors(
    name: Seq<char>,
    dirs: Seq<SearchDirModel>,
    outcomes: Seq<InspectedModel>,
) -> Seq<Seq<char>>
    decreases dirs.len(),
{
    if dirs.len() == 0 {
        Seq::empty()
    } else {
        let before = explicit_errors(name, dirs.drop_last(), outcomes.drop_last());
        match outcomes.last() {
            InspectedModel::Failed(error) => if dirs.last().explicit {
                before.push(
                    paths::shown(
                        paths::joined_path(dirs.last().path, vstd::utf8::encode_utf8(name)),
                    ) + ": "@ + error::error_line(error),
                )
            } else {
                before
            },
            _ => before,
        }
    }
}

/// The matches in all search directories, unless a configured one made
/// trouble.
pub open spec fn matches_in(
    name: Seq<char>,
    dirs: Seq<SearchDirModel>,
    outcomes: Seq<InspectedModel>,
) -> Result<Seq<MatchModel>, ErrorModel> {
    let errors = explicit_errors(name, dirs, outcomes);
    if errors.len() > 0 {
        Err(
            ErrorModel::ProfileParse(
                "failed to inspect configured executable_dirs for command '"@ + name + "': "@
                    + text::joined(errors, "; "@),
            ),
        )
    } else {
        Ok(outcomes.flat_map(found()))
    }
}

/// Gathers the matches of a command in all search directories. `outcomes` says
/// what inspecting the candidate in each of them came to.
pub fn find_command_matches(
    command_name: &str,
    dirs: &Vec<CommandSearchDir>,
    outcomes: &Vec<Inspected>,
) -> (r: Result<Vec<CommandMatch>, NonoError>)
    requires
        outcomes@.len() == dirs@.len(),
    ensures
        match r {
            Ok(matches) => matches_in(command_name@, text::views(dirs@), text::views(outcomes@))
                == Ok::<_, ErrorModel>(text::views(matches@)),
            Err(error) => matches_in(command_name@, text::views(dirs@), text::views(outcomes@))
                == Err::<Seq<MatchModel>, _>(error@),
        },
{
    let mut matches: Vec<CommandMatch> = Vec::new();
    let mut errors: Vec<String> = Vec::new();
    let name = FilePath::from_text(command_name);
    let ghost places = text::views(dirs@);
    let ghost all = text::views(outcomes@);
    proof {
        assert(all.take(0).map_values(found()) =~= Seq::empty());
        assert(all.take(0).flat_map(found()) =~= Seq::empty());
        assert(text::views(matches@) =~= Seq::empty());
        assert(text::texts(errors@) =~= explicit_errors(command_name@, places.take(0), all.take(0)));
    }
    for i in 0..dirs.len()
        invariant
            outcomes@.len() == dirs@.len(),
            name@ == vstd::utf8::encode_utf8(command_name@),
            places == text::views(dirs@),
            all == text::views(outcomes@),
            text::views(matches@) == all.take(i as int).flat_map(found()),
            text::texts(errors@) == explicit_errors(
                command_name@,
                places.take(i as int),
                all.take(i as int),
            ),
    {
        let ghost before = text::views(matches@);
        let ghost complaints = text::texts(errors@);
        proof {
            all.lemma_flat_map_take_append(found(), i as int);
            assert(places.take(i + 1).drop_last() =~= places.take(i as int));
            assert(all.take(i + 1).drop_last() =~= all.take(i as int));
            assert(places.take(i + 1).last() == dirs@[i as int]@);
            assert(all.take(i + 1).last() == outcomes@[i as int]@);
        }
        match &outcomes[i] {
            Inspected::Match(command_match) => {
                matches.push(command_match.clone());
                assert(text::views(matches@) =~= before.push(command_match@));
            },
            Inspected::Nothing => {},
            Inspected::Failed(error) => {
                if dirs[i].explicit {
                    let line = text::cat3(
                        dirs[i].path.join(&name).display().as_str(),
                        ": ",
                        error.message().as_str(),
                    );
                    let ghost value = line@;
                    errors.push(line);
                    assert(text::texts(errors@) =~= complaints.push(value));
                }
            },
        }
    }
    proof {
        assert(places.take(places.len() as int) =~= places);
        assert(all.take(all.len() as int) =~= all);
    }
    if errors.len() > 0 {
        return Err(
            NonoError::ProfileParse(
                text::cat4(
                    "failed to inspect configured executable_dirs for command '",
                    command_name,
                    "': ",
                    text::join_texts(&errors, "; ").as_str(),
                ),
            ),
        );
    }
    Ok(matches)
}

/// The match of a command that is bound to one executable.
pub open spec fn exact_match(
    name: Seq<char>,
    executable: Seq<char>,
    outcome: InspectedModel,
) -> Result<MatchModel, ErrorModel> {
    match outcome {
        InspectedModel::Match(m) => Ok(m),
        InspectedModel::Failed(error) => Err(error),
        InspectedModel::Nothing => Err(
            ErrorModel::ProfileParse(
                "command policy '"@ + name + "' executable '"@ + paths::shown(
                    vstd::utf8::encode_utf8(executable),
                ) + "' is not an executable file"@,
            ),
        ),
    }
}

/// Takes the match of a command that is bound to one executable. `outcome` says
/// what inspecting that file came to.
pub fn exact_command_match(command_name: &str, executable: &str, outcome: &Inspected) -> (r: Result<
    CommandMatch,
    NonoError,
>)
    ensures
        crate::error::outcome(r) == exact_match(command_name@, executable@, outcome@),
{
    match outcome {
        Inspected::Match(command_match) => Ok(command_match.clone()),
        Inspected::Failed(error) => Err(error.clone()),
        Inspected::Nothing => {
            let path = FilePath::from_text(executable);
            Err(
                NonoError::ProfileParse(
                    text::cat5(
                        "command policy '",
                        command_name,
                        "' executable '",
                        path.display().as_str(),
                        "' is not an executable file",
                    ),
                ),
            )
        },
    }
}

/// Two matches are the same file.
pub open spec fn same_inode(a: MatchModel, b: MatchModel) -> bool {
    a.dev == b.dev && a.ino == b.ino
}

/// Some match of the list is the same file.
pub open spec fn lists_inode(list: Seq<MatchModel>, m: MatchModel) -> bool {
    exists|i: int| 0 <= i < list.len() && #[trigger] same_inode(list[i], m)
}

/// The paths of the files in the list that are not the selected one, each file
/// once, at its first place.
pub open spec fn other_paths(selected: MatchModel, list: Seq<MatchModel>) -> Seq<Seq<u8>>
    decreases list.len(),
{
    if list.len() == 0 {
        Seq::empty()
    } else {
        let before = list.drop_last();
        if same_inode(list.last(), selected) || lists_inode(before, list.last()) {
            other_paths(selected, before)
        } else {
            other_paths(selected, before).push(list.last().canonical_path)
        }
    }
}

/// Lists the files behind the first match that are not the selected one.
pub fn duplicate_distinct_inode_paths(selected: &CommandMatch, matches: &Vec<CommandMatch>) -> (r:
    Vec<FilePath>)
    ensures
        text::views(r@) == (if matches@.len() == 0 {
            Seq::<Seq<u8>>::empty()
        } else {
            other_paths(selected@, text::views(matches@).skip(1))
        }),
{
    let mut duplicates: Vec<FilePath> = Vec::new();
    let ghost all = text::views(matches@);
    let ghost rest = all.skip(1);
    assert(text::views(duplicates@) =~= Seq::empty());
    if matches.len() == 0 {
        return duplicates;
    }
    assert(text::views(duplicates@) =~= other_paths(selected@, rest.take(0)));
    for i in 1..matches.len()
        invariant
            all == text::views(matches@),
            rest == all.skip(1),
            text::views(duplicates@) == other_paths(selected@, rest.take(i - 1)),
    {
        let candidate = &matches[i];
        assert(rest.take(i as int).drop_last() =~= rest.take(i - 1));
        assert(rest.take(i as int).last() == candidate@);
        let mut seen: bool = false;
        for j in 1..i
            invariant
                1 <= i < matches@.len(),
                all == text::views(matches@),
                rest == all.skip(1),
                candidate@ == all[i as int],
                seen == exists|k: int|
                    0 <= k < j - 1 && #[trigger] same_inode(rest[k], candidate@),
        {
            assert(rest[j - 1] == matches@[j as int]@);
            if matches[j].dev == candidate.dev && matches[j].ino == candidate.ino {
                assert(same_inode(rest[j - 1], candidate@));
                seen = true;
            }
        }
        proof {
            if seen {
                let k = choose|k: int|
                    0 <= k < i - 1 && #[trigger] same_inode(rest[k], candidate@);
                assert(same_inode(rest.take(i - 1)[k], candidate@));
            }
            if lists_inode(rest.take(i - 1), candidate@) {
                let k = choose|k: int|
                    0 <= k < rest.take(i - 1).len() && #[trigger] same_inode(
                        rest.take(i - 1)[k],
                        candidate@,
                    );
                assert(same_inode(rest[k], candidate@));
            }
        }
        let is_selected = candidate.dev == selected.dev && candidate.ino == selected.ino;
        if !is_selected && !seen {
            let ghost before = text::views(duplicates@);
            duplicates.push(candidate.canonical_path.clone());
            assert(text::views(duplicates@) =~= before.push(candidate@.canonical_path));
        }
    }
    assert(rest.take(rest.len() as int) =~= rest);
    duplicates
}

// ---------------------------------------------------------------------------
// Resolution
// ---------------------------------------------------------------------------

/// The file that a command resolves to, and other files of its name.
pub open spec fn selection(
    name: Seq<char>,
    command: CommandModel,
    dirs: Seq<SearchDirModel>,
    outcomes: Seq<InspectedModel>,
) -> Result<(MatchModel, Seq<Seq<u8>>), ErrorModel> {
    match command.executable {
        Some(executable) => match exact_match(name, executable, outcomes[0]) {
            Ok(m) => Ok((m, Seq::empty())),
            Err(error) => Err(error),
        },
        None => match matches_in(name, dirs, outcomes) {
            Err(error) => Err(error),
            Ok(matches) => if matches.len() == 0 {
                Err(
                    ErrorModel::ProfileParse(
                        "command policy '"@ + name + "' could not be resolved on PATH"@,
                    ),
                )
            } else {
                Ok((matches[0], other_paths(matches[0], matches.skip(1))))
            },
        },
    }
}

/// Selects the file that a command resolves to. `outcomes` says what inspecting
/// each of its candidates came to.
pub fn select_command(
    command_name: &str,
    command: &CommandPolicyConfig,
    dirs: &Vec<CommandSearchDir>,
    outcomes: &Vec<Inspected>,
) -> (r: Result<(CommandMatch, Vec<FilePath>), NonoError>)
    requires
        outcomes@.len() == candidates(command_name@, command@, text::views(dirs@)).len(),
    ensures
        match r {
            Ok((m, others)) => selection(
                command_name@,
                command@,
                text::views(dirs@),
                text::views(outcomes@),
            ) == Ok::<_, ErrorModel>((m@, text::views(others@))),
            Err(error) => selection(
                command_name@,
                command@,
                text::views(dirs@),
                text::views(outcomes@),
            ) == Err::<(MatchModel, Seq<Seq<u8>>), _>(error@),
        },
{
    if let Some(executable) = &command.executable {
        assert(text::views(outcomes@)[0] == outcomes@[0]@);
        let none: Vec<FilePath> = Vec::new();
        assert(text::views(none@) =~= Seq::<Seq<u8>>::empty());
        match exact_command_match(command_name, executable.as_str(), &outcomes[0]) {
            Ok(m) => Ok((m, none)),
            Err(error) => Err(error),
        }
    } else {
        let matches = match find_command_matches(command_name, dirs, outcomes) {
            Ok(matches) => matches,
            Err(error) => {
                return Err(error);
            },
        };
        if matches.len() == 0 {
            return Err(
                NonoError::ProfileParse(
                    text::cat3(
                        "command policy '",
                        command_name,
                        "' could not be resolved on PATH",
                    ),
                ),
            );
        }
        assert(text::views(matches@)[0] == matches@[0]@);
        let selected = matches[0].clone();
        let others = duplicate_distinct_inode_paths(&selected, &matches);
        Ok((selected, others))
    }
}

/// A command with the file that it resolved to.
#[derive(Debug, PartialEq, Eq)]
pub struct ResolvedCommandBinary {
    pub name: String,
    pub canonical_path: FilePath,
    pub dev: u64,
    pub ino: u64,
    pub size: u64,
    pub mtime_nanos: i128,
    pub sha256: String,
    pub duplicate_paths: Vec<FilePath>,
    pub shape: ResolvedExecutableShape,
}

/// What a resolved command stands for.
#[verifier::ext_equal]
pub struct BinaryModel {
    pub name: Seq<char>,
    pub canonical_path: Seq<u8>,
    pub dev: u64,
    pub ino: u64,
    pub size: u64,
    pub mtime_nanos: int,
    pub sha256: Seq<char>,
    pub duplicate_paths: Seq<Seq<u8>>,
    pub shape: ShapeModel,
}

impl View for ResolvedCommandBinary {
    type V = BinaryModel;

    open spec fn view(&self) -> BinaryModel {
        BinaryModel {
            name: self.name@,
            canonical_path: self.canonical_path@,
            dev: self.dev,
            ino: self.ino,
            size: self.size,
            mtime_nanos: self.mtime_nanos as int,
            sha256: self.sha256@,
            duplicate_paths: text::views(self.duplicate_paths@),
            shape: self.shape@,
        }
    }
}

/// Every policy-controlled command with its file, and what is worth knowing.
#[derive(Debug, PartialEq, Eq)]
pub struct ResolvedCommandBinaries {
    pub commands: NameMap<ResolvedCommandBinary>,
    pub warnings: Vec<CommandPolicyFinding>,
}

/// What resolved commands stand for.
#[verifier::ext_equal]
pub struct BinariesModel {
    pub commands: Map<Seq<char>, BinaryModel>,
    pub warnings: Seq<FindingModel>,
}

impl View for ResolvedCommandBinaries {
    type V = BinariesModel;

    open spec fn view(&self) -> BinariesModel {
        BinariesModel { commands: self.commands@, warnings: text::views(self.warnings@) }
    }
}

/// The resolved command for a selected file.
pub open spec fn binary(name: Seq<char>, m: MatchModel, others: Seq<Seq<u8>>) -> BinaryModel {
    BinaryModel {
        name,
        canonical_path: m.canonical_path,
        dev: m.dev,
        ino: m.ino,
        size: m.size,
        mtime_nanos: m.mtime_nanos,
        sha256: m.sha256,
        duplicate_paths: others,
        shape: m.shape,
    }
}

/// How paths are listed in a message.
pub open spec fn shown_list(list: Seq<Seq<u8>>) -> Seq<char> {
    text::joined(list.map_values(|path: Seq<u8>| paths::shown(path)), ", "@)
}

/// What is worth knowing about a resolved command: other files of its name, and
/// that it needs an interpreter.
pub open spec fn resolution_warnings(
    name: Seq<char>,
    m: MatchModel,
    others: Seq<Seq<u8>>,
) -> Seq<FindingModel> {
    validate::when(
        others.len() > 0,
        report::finding(
            "duplicate_path_command"@,
            "command policy '"@ + name + "' resolved to "@ + paths::shown(m.canonical_path)
                + ", but other executable '"@ + name + "' entries exist on PATH: "@ + shown_list(
                others,
            ) + "; only the resolved binary is controlled by this policy"@,
        ),
    ) + validate::when(
        m.shape.kind == ResolvedExecutableKind::ShebangScript,
        report::finding(
            "script_entrypoint"@,
            "command policy '"@ + name + "' resolved to script "@ + paths::shown(m.canonical_path)
                + "; child policy must grant interpreter/runtime "@ + (match m.shape.interpreter {
                Some(path) => paths::shown(path),
                None => "<unknown>"@,
            }) + " explicitly"@,
        ),
    )
}

/// The resolution of the first `n` commands, in the order of their names; the
/// first that fails decides.
pub open spec fn resolution(
    config: PoliciesModel,
    dirs: Seq<SearchDirModel>,
    outcomes: Seq<Seq<InspectedModel>>,
    n: nat,
) -> Result<BinariesModel, ErrorModel>
    decreases n,
{
    if n == 0 {
        Ok(BinariesModel { commands: Map::empty(), warnings: Seq::empty() })
    } else {
        let i = n - 1;
        let name = name_map::ordered_keys(config.commands)[i];
        match resolution(config, dirs, outcomes, i as nat) {
            Err(error) => Err(error),
            Ok(before) => match selection(name, config.commands[name], dirs, outcomes[i]) {
                Err(error) => Err(error),
                Ok((m, others)) => Ok(
                    BinariesModel {
                        commands: before.commands.insert(name, binary(name, m, others)),
                        warnings: before.warnings + resolution_warnings(name, m, others),
                    },
                ),
            },
        }
    }
}

/// What the outcomes for every command stand for.
pub open spec fn outcomes_view(outcomes: Seq<Vec<Inspected>>) -> Seq<Seq<InspectedModel>> {
    outcomes.map_values(|list: Vec<Inspected>| text::views(list@))
}

/// There is one outcome for every candidate of every command.
pub open spec fn outcomes_fit(
    config: PoliciesModel,
    dirs: Seq<SearchDirModel>,
    outcomes: Seq<Seq<InspectedModel>>,
) -> bool {
    let names = name_map::ordered_keys(config.commands);
    &&& outcomes.len() == names.len()
    &&& forall|i: int|
        0 <= i < names.len() ==> (#[trigger] outcomes[i]).len() == candidates(
            names[i],
            config.commands[names[i]],
            dirs,
        ).len()
}

fn shown_paths(list: &Vec<FilePath>) -> (r: String)
    ensures
        r@ == shown_list(text::views(list@)),
{
    let mut lines: Vec<String> = Vec::new();
    for i in 0..list.len()
        invariant
            lines@.len() == i,
            forall|j: int| 0 <= j < i ==> (#[trigger] lines@[j])@ == paths::shown(list@[j]@),
    {
        lines.push(list[i].display());
    }
    assert(text::texts(lines@) =~= text::views(list@).map_values(
        |path: Seq<u8>| paths::shown(path),
    ));
    text::join_texts(&lines, ", ")
}

fn push_resolution_warnings(
    command_name: &str,
    selected: &CommandMatch,
    others: &Vec<FilePath>,
    warnings: &mut Vec<CommandPolicyFinding>,
)
    ensures
        text::views(final(warnings)@) == text::views(old(warnings)@) + resolution_warnings(
            command_name@,
            selected@,
            text::views(others@),
        ),
{
    let ghost start = text::views(warnings@);
    let path = selected.canonical_path.display();
    if others.len() > 0 {
        let beginning = text::cat4(
            "command policy '",
            command_name,
            "' resolved to ",
            path.as_str(),
        );
        let warning = CommandPolicyFinding::new(
            "duplicate_path_command",
            text::cat6(
                beginning.as_str(),
                ", but other executable '",
                command_name,
                "' entries exist on PATH: ",
                shown_paths(others).as_str(),
                "; only the resolved binary is controlled by this policy",
            ),
        );
        let ghost value = warning@;
        warnings.push(warning);
        assert(text::views(warnings@) =~= start.push(value));
    }
    let ghost middle = text::views(warnings@);
    if selected.shape.kind == ResolvedExecutableKind::ShebangScript {
        let interpreter = match &selected.shape.interpreter {
            Some(interpreter) => interpreter.display(),
            None => "<unknown>".to_owned(),
        };
        let warning = CommandPolicyFinding::new(
            "script_entrypoint",
            text::cat7(
                "command policy '",
                command_name,
                "' resolved to script ",
                path.as_str(),
                "; child policy must grant interpreter/runtime ",
                interpreter.as_str(),
                " explicitly",
            ),
        );
        let ghost value = warning@;
        warnings.push(warning);
        assert(text::views(warnings@) =~= middle.push(value));
    }
}

/// Resolves every policy-controlled command to the file that it stands for.
/// `outcomes` says, for every command in the order of their names, what
/// inspecting each of its candidates came to.
pub fn resolve_policy_command_binaries(
    config: &CommandPoliciesConfig,
    dirs: &Vec<CommandSearchDir>,
    outcomes: &Vec<Vec<Inspected>>,
) -> (r: Result<ResolvedCommandBinaries, NonoError>)
    requires
        outcomes_fit(config@, text::views(dirs@), outcomes_view(outcomes@)),
    ensures
        crate::error::outcome(r) == resolution(
            config@,
            text::views(dirs@),
            outcomes_view(outcomes@),
            name_map::ordered_keys(config@.commands).len(),
        ),
{
    let ghost places = text::views(dirs@);
    let ghost all = outcomes_view(outcomes@);
    let ghost names = name_map::ordered_keys(config@.commands);
    let mut commands: NameMap<ResolvedCommandBinary> = NameMap::new();
    let mut warnings: Vec<CommandPolicyFinding> = Vec::new();
    assert(text::views(warnings@) =~= Seq::empty());
    let n = config.commands.len();
    for i in 0..n
        invariant
            places == text::views(dirs@),
            all == outcomes_view(outcomes@),
            names == name_map::ordered_keys(config@.commands),
            n == names.len(),
            outcomes_fit(config@, places, all),
            resolution(config@, places, all, i as nat) == Ok::<_, ErrorModel>(
                BinariesModel { commands: commands@, warnings: text::views(warnings@) },
            ),
        ensures
            resolution(config@, places, all, n as nat) == Ok::<_, ErrorModel>(
                BinariesModel { commands: commands@, warnings: text::views(warnings@) },
            ),
    {
        let command_name = config.commands.name_at(i);
        let command = config.commands.value_at(i);
        assert(all[i as int] == text::views(outcomes@[i as int]@));
        assert(!(resolution(config@, places, all, i as nat) is Err));
        match select_command(command_name.as_str(), command, dirs, &outcomes[i]) {
            Err(error) => {
                proof {
                    lemma_error_stays(config@, places, all, (i + 1) as nat, n as nat);
                }
                return Err(error);
            },
            Ok((selected, others)) => {
                push_resolution_warnings(command_name.as_str(), &selected, &others, &mut warnings);
                commands.insert(
                    command_name.clone(),
                    ResolvedCommandBinary {
                        name: command_name.clone(),
                        canonical_path: selected.canonical_path,
                        dev: selected.dev,
                        ino: selected.ino,
                        size: selected.size,
                        mtime_nanos: selected.mtime_nanos,
                        sha256: selected.sha256,
                        duplicate_paths: others,
                        shape: selected.shape,
                    },
                );
            },
        }
    }
    Ok(ResolvedCommandBinaries { commands, warnings })
}

/// A failed resolution stays failed.
proof fn lemma_error_stays(
    config: PoliciesModel,
    dirs: Seq<SearchDirModel>,
    outcomes: Seq<Seq<InspectedModel>>,
    k: nat,
    n: nat,
)
    requires
        k <= n,
        resolution(config, dirs, outcomes, k) is Err,
    ensures
        resolution(config, dirs, outcomes, n) == resolution(config, dirs, outcomes, k),
    decreases n - k,
{
    if k < n {
        lemma_error_stays(config, dirs, outcomes, k, (n - 1) as nat);
    }
}

} // verus!
