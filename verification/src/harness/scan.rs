//! Scanning for executables.
use vstd::prelude::*;

use crate::error::{ErrorModel, NonoError};
use crate::harness::FileId;
use crate::path_list;
use crate::paths;
use crate::paths::FilePath;
use crate::text;

verus! {

// ---------------------------------------------------------------------------
// Input paths
// ---------------------------------------------------------------------------

/// What the file system says of an input path.
#[derive(Debug, PartialEq, Eq)]
pub enum PathStatus {
    Missing,
    /// It is there, but cannot be made canonical.
    Uncanonical(String),
    Canonical { path: FilePath, is_dir: bool },
}

/// What a path status stands for.
#[verifier::ext_equal]
pub enum PathStatusModel {
    Missing,
    Uncanonical(Seq<char>),
    Canonical { path: Seq<u8>, is_dir: bool },
}

impl View for PathStatus {
    type V = PathStatusModel;

    open spec fn view(&self) -> PathStatusModel {
        match self {
            PathStatus::Missing => PathStatusModel::Missing,
            PathStatus::Uncanonical(reason) => PathStatusModel::Uncanonical(reason@),
            PathStatus::Canonical { path, is_dir } => PathStatusModel::Canonical {
                path: path@,
                is_dir: *is_dir,
            },
        }
    }
}

/// The paths to look at: those provided, else the defaults.
pub open spec fn chosen_paths(provided: Seq<Seq<u8>>, defaults: Seq<Seq<char>>) -> Seq<Seq<u8>> {
    if provided.len() == 0 {
        defaults.map_values(|path: Seq<char>| vstd::utf8::encode_utf8(path))
    } else {
        provided
    }
}

/// Where executables are looked for unless the user says otherwise.
pub open spec fn exec_dir_defaults() -> Seq<Seq<char>> {
    seq!["/bin"@, "/usr/bin"@, "/usr/local/bin"@, "/sbin"@, "/usr/sbin"@]
}

/// Where loaders and libraries are looked for unless the user says otherwise.
pub open spec fn support_dir_defaults() -> Seq<Seq<char>> {
    seq![
        "/lib"@,
        "/lib64"@,
        "/usr/lib"@,
        "/usr/lib64"@,
        "/usr/local/lib"@,
        "/usr/local/lib64"@,
    ]
}

/// The files that executables read unless the user says otherwise.
pub open spec fn support_file_defaults() -> Seq<Seq<char>> {
    seq![
        "/etc/ld.so.cache"@,
        "/etc/ld.so.conf"@,
        "/etc/nsswitch.conf"@,
        "/etc/hosts"@,
        "/etc/resolv.conf"@,
    ]
}

/// Lists where executables are looked for unless the user says otherwise.
pub fn default_exec_dirs() -> (r: Vec<String>)
    ensures
        text::texts(r@) == exec_dir_defaults(),
{
    let r = vec![
        "/bin".to_owned(),
        "/usr/bin".to_owned(),
        "/usr/local/bin".to_owned(),
        "/sbin".to_owned(),
        "/usr/sbin".to_owned(),
    ];
    assert(text::texts(r@) =~= exec_dir_defaults());
    r
}

/// Lists where loaders and libraries are looked for unless the user says
/// otherwise.
pub fn default_support_dirs() -> (r: Vec<String>)
    ensures
        text::texts(r@) == support_dir_defaults(),
{
    let r = vec![
        "/lib".to_owned(),
        "/lib64".to_owned(),
        "/usr/lib".to_owned(),
        "/usr/lib64".to_owned(),
        "/usr/local/lib".to_owned(),
        "/usr/local/lib64".to_owned(),
    ];
    assert(text::texts(r@) =~= support_dir_defaults());
    r
}

/// Lists the files that executables read unless the user says otherwise.
pub fn default_support_files() -> (r: Vec<String>)
    ensures
        text::texts(r@) == support_file_defaults(),
{
    let r = vec![
        "/etc/ld.so.cache".to_owned(),
        "/etc/ld.so.conf".to_owned(),
        "/etc/nsswitch.conf".to_owned(),
        "/etc/hosts".to_owned(),
        "/etc/resolv.conf".to_owned(),
    ];
    assert(text::texts(r@) =~= support_file_defaults());
    r
}

/// Chooses the paths to look at.
pub fn input_paths(provided: &Vec<FilePath>, defaults: &Vec<String>) -> (r: Vec<FilePath>)
    ensures
        text::views(r@) == chosen_paths(text::views(provided@), text::texts(defaults@)),
{
    if provided.len() > 0 {
        return path_list::copy_paths(provided);
    }
    let mut out: Vec<FilePath> = Vec::new();
    for i in 0..defaults.len()
        invariant
            out@.len() == i,
            forall|j: int|
                0 <= j < i ==> (#[trigger] out@[j])@ == vstd::utf8::encode_utf8(defaults@[j]@),
    {
        out.push(FilePath::from_text(defaults[i].as_str()));
    }
    assert(text::views(out@) =~= chosen_paths(text::views(provided@), text::texts(defaults@)));
    out
}

/// What is wrong with an input path.
pub open spec fn input_error(
    raw: Seq<u8>,
    status: PathStatusModel,
    require_dir: bool,
) -> Option<ErrorModel> {
    match status {
        PathStatusModel::Missing => None,
        PathStatusModel::Uncanonical(reason) => Some(
            ErrorModel::PathCanonicalization { path: raw, source: reason },
        ),
        PathStatusModel::Canonical { is_dir, .. } => if require_dir && !is_dir {
            Some(ErrorModel::ExpectedDirectory(raw))
        } else {
            None
        },
    }
}

/// The first input path that is wrong decides.
pub open spec fn first_input_error(
    raw: Seq<Seq<u8>>,
    statuses: Seq<PathStatusModel>,
    require_dir: bool,
) -> Option<ErrorModel>
    decreases raw.len(),
{
    if raw.len() == 0 {
        None
    } else {
        match input_error(raw[0], statuses[0], require_dir) {
            Some(error) => Some(error),
            None => first_input_error(raw.skip(1), statuses.skip(1), require_dir),
        }
    }
}

/// The canonical paths of the inputs that are there.
pub open spec fn canonical_paths(statuses: Seq<PathStatusModel>) -> Seq<Seq<u8>>
    decreases statuses.len(),
{
    if statuses.len() == 0 {
        Seq::empty()
    } else {
        let before = canonical_paths(statuses.drop_last());
        match statuses.last() {
            PathStatusModel::Canonical { path, .. } => before.push(path),
            _ => before,
        }
    }
}

/// The set of canonical paths of the inputs that are there.
pub open spec fn normalized(
    raw: Seq<Seq<u8>>,
    statuses: Seq<PathStatusModel>,
    require_dir: bool,
) -> Result<Seq<Seq<u8>>, ErrorModel> {
    match first_input_error(raw, statuses, require_dir) {
        Some(error) => Err(error),
        None => Ok(path_list::path_set(canonical_paths(statuses))),
    }
}

/// A result with its paths taken by their bytes.
pub open spec fn paths_outcome(r: Result<Vec<FilePath>, NonoError>) -> Result<
    Seq<Seq<u8>>,
    ErrorModel,
> {
    match r {
        Ok(list) => Ok(text::views(list@)),
        Err(error) => Err(error@),
    }
}

/// Makes input paths canonical, drops those that are not there, and orders
/// them. `statuses` says what each of them is.
pub fn normalize_input_paths(
    raw: &Vec<FilePath>,
    statuses: &Vec<PathStatus>,
    require_dir: bool,
) -> (r: Result<Vec<FilePath>, NonoError>)
    requires
        statuses@.len() == raw@.len(),
    ensures
        paths_outcome(r) == normalized(text::views(raw@), text::views(statuses@), require_dir),
{
    let ghost inputs = text::views(raw@);
    let ghost replies = text::views(statuses@);
    let mut out: Vec<FilePath> = Vec::new();
    assert(inputs.skip(0) =~= inputs);
    assert(replies.skip(0) =~= replies);
    assert(text::views(out@) =~= path_list::path_set(canonical_paths(replies.take(0))));
    for i in 0..raw.len()
        invariant
            statuses@.len() == raw@.len(),
            inputs == text::views(raw@),
            replies == text::views(statuses@),
            first_input_error(inputs, replies, require_dir) == first_input_error(
                inputs.skip(i as int),
                replies.skip(i as int),
                require_dir,
            ),
            text::views(out@) == path_list::path_set(canonical_paths(replies.take(i as int))),
    {
        proof {
            assert(inputs.skip(i as int)[0] == raw@[i as int]@);
            assert(replies.skip(i as int)[0] == statuses@[i as int]@);
            assert(inputs.skip(i as int).skip(1) =~= inputs.skip(i + 1));
            assert(replies.skip(i as int).skip(1) =~= replies.skip(i + 1));
            assert(replies.take(i + 1).drop_last() =~= replies.take(i as int));
            assert(replies.take(i + 1).last() == statuses@[i as int]@);
        }
        match &statuses[i] {
            PathStatus::Missing => {},
            PathStatus::Uncanonical(reason) => {
                return Err(
                    NonoError::PathCanonicalization {
                        path: raw[i].clone(),
                        source: reason.clone(),
                    },
                );
            },
            PathStatus::Canonical { path, is_dir } => {
                if require_dir && !*is_dir {
                    return Err(NonoError::ExpectedDirectory(raw[i].clone()));
                }
                proof {
                    let before = canonical_paths(replies.take(i as int));
                    assert(before.push(path@).drop_last() =~= before);
                }
                path_list::insert_into_set(&mut out, path.clone());
            },
        }
    }
    assert(replies.take(replies.len() as int) =~= replies);
    Ok(out)
}

/// The members of a list that are marked.
pub open spec fn marked(list: Seq<Seq<u8>>, marks: Seq<bool>) -> Seq<Seq<u8>>
    decreases list.len(),
{
    if list.len() == 0 {
        Seq::empty()
    } else if marks[list.len() - 1] {
        marked(list.drop_last(), marks).push(list.last())
    } else {
        marked(list.drop_last(), marks)
    }
}

fn keep_marked(list: Vec<FilePath>, marks: &Vec<bool>) -> (r: Vec<FilePath>)
    requires
        marks@.len() == list@.len(),
    ensures
        text::views(r@) == marked(text::views(list@), marks@),
{
    let ghost all = text::views(list@);
    let mut out: Vec<FilePath> = Vec::new();
    assert(text::views(out@) =~= marked(all.take(0), marks@));
    for i in 0..list.len()
        invariant
            marks@.len() == list@.len(),
            all == text::views(list@),
            text::views(out@) == marked(all.take(i as int), marks@),
    {
        assert(all.take(i + 1).drop_last() =~= all.take(i as int));
        assert(all.take(i + 1).last() == list@[i as int]@);
        if marks[i] {
            let ghost before = text::views(out@);
            out.push(list[i].clone());
            assert(text::views(out@) =~= before.push(list@[i as int]@));
        }
    }
    assert(all.take(all.len() as int) =~= all);
    out
}

/// Keeps the paths that are directories. `is_dir` says which are.
pub fn existing_dirs(paths: Vec<FilePath>, is_dir: &Vec<bool>) -> (r: Vec<FilePath>)
    requires
        is_dir@.len() == paths@.len(),
    ensures
        text::views(r@) == marked(text::views(paths@), is_dir@),
{
    keep_marked(paths, is_dir)
}

/// Keeps the paths that are files. `is_file` says which are.
pub fn existing_files(paths: Vec<FilePath>, is_file: &Vec<bool>) -> (r: Vec<FilePath>)
    requires
        is_file@.len() == paths@.len(),
    ensures
        text::views(r@) == marked(text::views(paths@), is_file@),
{
    keep_marked(paths, is_file)
}

// ---------------------------------------------------------------------------
// Exclusions
// ---------------------------------------------------------------------------

/// A binary that is kept out of the sandbox.
#[derive(Debug, PartialEq, Eq)]
pub struct Exclusion {
    pub requested: FilePath,
    pub canonical: FilePath,
    pub id: FileId,
}

/// What an exclusion stands for.
#[verifier::ext_equal]
pub struct ExclusionModel {
    pub requested: Seq<u8>,
    pub canonical: Seq<u8>,
    pub id: FileId,
}

impl View for Exclusion {
    type V = ExclusionModel;

    open spec fn view(&self) -> ExclusionModel {
        ExclusionModel { requested: self.requested@, canonical: self.canonical@, id: self.id }
    }
}

/// What the file system says of a path to exclude.
#[derive(Debug, PartialEq, Eq)]
pub enum ExclusionStatus {
    Uncanonical(String),
    Unreadable { canonical: FilePath, source: String },
    Found { canonical: FilePath, is_file: bool, id: FileId },
}

/// What an exclusion status stands for.
#[verifier::ext_equal]
pub enum ExclusionStatusModel {
    Uncanonical(Seq<char>),
    Unreadable { canonical: Seq<u8>, source: Seq<char> },
    Found { canonical: Seq<u8>, is_file: bool, id: FileId },
}

impl View for ExclusionStatus {
    type V = ExclusionStatusModel;

    open spec fn view(&self) -> ExclusionStatusModel {
        match self {
            ExclusionStatus::Uncanonical(reason) => ExclusionStatusModel::Uncanonical(reason@),
            ExclusionStatus::Unreadable { canonical, source } => ExclusionStatusModel::Unreadable {
                canonical: canonical@,
                source: source@,
            },
            ExclusionStatus::Found { canonical, is_file, id } => ExclusionStatusModel::Found {
                canonical: canonical@,
                is_file: *is_file,
                id: *id,
            },
        }
    }
}

/// What is wrong with a path to exclude.
pub open spec fn exclusion_error(
    requested: Seq<u8>,
    status: ExclusionStatusModel,
) -> Option<ErrorModel> {
    match status {
        ExclusionStatusModel::Uncanonical(reason) => Some(
            ErrorModel::PathCanonicalization { path: requested, source: reason },
        ),
        ExclusionStatusModel::Unreadable { canonical, source } => Some(
            ErrorModel::ConfigRead { path: canonical, source },
        ),
        ExclusionStatusModel::Found { is_file, .. } => if is_file {
            None
        } else {
            Some(ErrorModel::ExpectedFile(requested))
        },
    }
}

/// The first path to exclude that is wrong decides.
pub open spec fn first_exclusion_error(
    requested: Seq<Seq<u8>>,
    statuses: Seq<ExclusionStatusModel>,
) -> Option<ErrorModel>
    decreases requested.len(),
{
    if requested.len() == 0 {
        None
    } else {
        match exclusion_error(requested[0], statuses[0]) {
            Some(error) => Some(error),
            None => first_exclusion_error(requested.skip(1), statuses.skip(1)),
        }
    }
}

/// Some exclusion of the list is this file.
pub open spec fn excludes_id(list: Seq<ExclusionModel>, id: FileId) -> bool {
    exists|i: int| 0 <= i < list.len() && (#[trigger] list[i]).id == id
}

/// Some exclusion of the list has this path.
pub open spec fn excludes_path(list: Seq<ExclusionModel>, path: Seq<u8>) -> bool {
    exists|i: int| 0 <= i < list.len() && paths::same_path((#[trigger] list[i]).canonical, path)
}

/// The files to exclude, each once, at its first place.
pub open spec fn exclusions(
    requested: Seq<Seq<u8>>,
    statuses: Seq<ExclusionStatusModel>,
) -> Seq<ExclusionModel>
    decreases requested.len(),
{
    if requested.len() == 0 {
        Seq::empty()
    } else {
        let before = exclusions(requested.drop_last(), statuses.drop_last());
        match statuses.last() {
            ExclusionStatusModel::Found { canonical, id, .. } => if excludes_id(before, id) {
                before
            } else {
                before.push(ExclusionModel { requested: requested.last(), canonical, id })
            },
            _ => before,
        }
    }
}

/// The files to exclude, unless one of the paths is wrong.
pub open spec fn canonical_exclusions(
    requested: Seq<Seq<u8>>,
    statuses: Seq<ExclusionStatusModel>,
) -> Result<Seq<ExclusionModel>, ErrorModel> {
    match first_exclusion_error(requested, statuses) {
        Some(error) => Err(error),
        None => Ok(exclusions(requested, statuses)),
    }
}

/// Tells whether some exclusion is this file.
pub fn has_excluded_id(list: &Vec<Exclusion>, id: FileId) -> (r: bool)
    ensures
        r == excludes_id(text::views(list@), id),
{
    for i in 0..list.len()
        invariant
            forall|j: int| 0 <= j < i ==> (#[trigger] text::views(list@)[j]).id != id,
    {
        assert(text::views(list@)[i as int] == list@[i as int]@);
        if list[i].id == id {
            return true;
        }
    }
    false
}

/// Tells whether some exclusion has this path.
pub fn has_excluded_path(list: &Vec<Exclusion>, path: &FilePath) -> (r: bool)
    ensures
        r == excludes_path(text::views(list@), path@),
{
    for i in 0..list.len()
        invariant
            forall|j: int|
                0 <= j < i ==> !paths::same_path(
                    (#[trigger] text::views(list@)[j]).canonical,
                    path@,
                ),
    {
        assert(text::views(list@)[i as int] == list@[i as int]@);
        if list[i].canonical.is_same(path) {
            return true;
        }
    }
    false
}

/// Makes the paths to exclude canonical and drops repeated files. `statuses`
/// says what each of them is.
pub fn canonicalize_exclusions(requested: &Vec<FilePath>, statuses: &Vec<ExclusionStatus>) -> (r:
    Result<Vec<Exclusion>, NonoError>)
    requires
        statuses@.len() == requested@.len(),
    ensures
        match r {
            Ok(list) => canonical_exclusions(text::views(requested@), text::views(statuses@))
                == Ok::<_, ErrorModel>(text::views(list@)),
            Err(error) => canonical_exclusions(text::views(requested@), text::views(statuses@))
                == Err::<Seq<ExclusionModel>, _>(error@),
        },
{
    let ghost inputs = text::views(requested@);
    let ghost replies = text::views(statuses@);
    let mut out: Vec<Exclusion> = Vec::new();
    assert(inputs.skip(0) =~= inputs);
    assert(replies.skip(0) =~= replies);
    assert(text::views(out@) =~= exclusions(inputs.take(0), replies.take(0)));
    for i in 0..requested.len()
        invariant
            statuses@.len() == requested@.len(),
            inputs == text::views(requested@),
            replies == text::views(statuses@),
            first_exclusion_error(inputs, replies) == first_exclusion_error(
                inputs.skip(i as int),
                replies.skip(i as int),
            ),
            text::views(out@) == exclusions(inputs.take(i as int), replies.take(i as int)),
    {
        proof {
            assert(inputs.skip(i as int)[0] == requested@[i as int]@);
            assert(replies.skip(i as int)[0] == statuses@[i as int]@);
            assert(inputs.skip(i as int).skip(1) =~= inputs.skip(i + 1));
            assert(replies.skip(i as int).skip(1) =~= replies.skip(i + 1));
            assert(inputs.take(i + 1).drop_last() =~= inputs.take(i as int));
            assert(replies.take(i + 1).drop_last() =~= replies.take(i as int));
            assert(inputs.take(i + 1).last() == requested@[i as int]@);
            assert(replies.take(i + 1).last() == statuses@[i as int]@);
        }
        match &statuses[i] {
            ExclusionStatus::Uncanonical(reason) => {
                return Err(
                    NonoError::PathCanonicalization {
                        path: requested[i].clone(),
                        source: reason.clone(),
                    },
                );
            },
            ExclusionStatus::Unreadable { canonical, source } => {
                return Err(
                    NonoError::ConfigRead { path: canonical.clone(), source: source.clone() },
                );
            },
            ExclusionStatus::Found { canonical, is_file, id } => {
                if !*is_file {
                    return Err(NonoError::ExpectedFile(requested[i].clone()));
                }
                if !has_excluded_id(&out, *id) {
                    let ghost before = text::views(out@);
                    let exclusion = Exclusion {
                        requested: requested[i].clone(),
                        canonical: canonical.clone(),
                        id: *id,
                    };
                    let ghost value = exclusion@;
                    out.push(exclusion);
                    assert(text::views(out@) =~= before.push(value));
                }
            },
        }
    }
    proof {
        assert(inputs.take(inputs.len() as int) =~= inputs);
        assert(replies.take(replies.len() as int) =~= replies);
    }
    Ok(out)
}

} // verus!
