//! Inspection of the files that a command may stand for.
//!
//! Inspecting a candidate alternates questions to the file system with
//! decisions. The decisions are a step from what is known and the reply to the
//! last question to what is known then; the question to ask is the state
//! itself.
use vstd::prelude::*;

use crate::command_policy::executable;
use crate::command_policy::executable::{ResolvedExecutableShape, ShapeModel};
use crate::error::{ErrorModel, NonoError};
use crate::paths;
use crate::paths::FilePath;
use crate::text;

verus! {

/// What the file system says of a file.
#[derive(Debug, Clone, Copy, PartialEq, Eq, Structural)]
pub struct FileFacts {
    pub is_file: bool,
    pub mode: u32,
    pub dev: u64,
    pub ino: u64,
    pub size: u64,
    pub mtime: i64,
    pub mtime_nsec: i64,
}

/// A regular file that somebody may execute.
pub open spec fn executable_file(facts: FileFacts) -> bool {
    facts.is_file && facts.mode & 0o111 != 0
}

/// Tells whether a file is regular and somebody may execute it.
pub fn is_executable_file(facts: &FileFacts) -> (r: bool)
    ensures
        r == executable_file(*facts),
{
    facts.is_file && facts.mode & 0o111 != 0
}

/// Nanoseconds since the epoch.
pub fn nanoseconds(seconds: i64, nanos: i64) -> (r: i128)
    ensures
        r == seconds * 1_000_000_000 + nanos,
{
    (seconds as i128) * 1_000_000_000 + (nanos as i128)
}

/// An executable file that a command may stand for.
#[derive(Debug, PartialEq, Eq)]
pub struct CommandMatch {
    pub canonical_path: FilePath,
    pub dev: u64,
    pub ino: u64,
    pub size: u64,
    pub mtime_nanos: i128,
    pub sha256: String,
    pub shape: ResolvedExecutableShape,
}

/// What a match stands for.
#[verifier::ext_equal]
pub struct MatchModel {
    pub canonical_path: Seq<u8>,
    pub dev: u64,
    pub ino: u64,
    pub size: u64,
    pub mtime_nanos: int,
    pub sha256: Seq<char>,
    pub shape: ShapeModel,
}

impl View for CommandMatch {
    type V = MatchModel;

    open spec fn view(&self) -> MatchModel {
        MatchModel {
            canonical_path: self.canonical_path@,
            dev: self.dev,
            ino: self.ino,
            size: self.size,
            mtime_nanos: self.mtime_nanos as int,
            sha256: self.sha256@,
            shape: self.shape@,
        }
    }
}

impl Clone for CommandMatch {
    fn clone(&self) -> (r: Self)
        ensures
            r@ == self@,
    {
        CommandMatch {
            canonical_path: self.canonical_path.clone(),
            dev: self.dev,
            ino: self.ino,
            size: self.size,
            mtime_nanos: self.mtime_nanos,
            sha256: self.sha256.clone(),
            shape: self.shape.clone(),
        }
    }
}

/// What inspecting a candidate came to: a match, nothing, or an error.
#[derive(Debug, PartialEq, Eq)]
pub enum Inspected {
    Match(CommandMatch),
    Nothing,
    Failed(NonoError),
}

/// What an outcome of an inspection stands for.
#[verifier::ext_equal]
pub enum InspectedModel {
    Match(MatchModel),
    Nothing,
    Failed(ErrorModel),
}

impl View for Inspected {
    type V = InspectedModel;

    open spec fn view(&self) -> InspectedModel {
        match self {
            Inspected::Match(found) => InspectedModel::Match(found@),
            Inspected::Nothing => InspectedModel::Nothing,
            Inspected::Failed(error) => InspectedModel::Failed(error@),
        }
    }
}

/// How far the inspection of a candidate has come, and so what to ask next.
pub enum Inspection {
    /// What is the candidate?
    Stat,
    /// Where does it really lie?
    Canonicalize,
    /// What is the file there?
    StatCanonical(FilePath),
    /// What does it hold?
    Read(FilePath, FileFacts),
    /// Nothing more to ask.
    Done(Inspected),
}

/// What a state of an inspection stands for.
#[verifier::ext_equal]
pub enum InspectionModel {
    Stat,
    Canonicalize,
    StatCanonical(Seq<u8>),
    Read(Seq<u8>, FileFacts),
    Done(InspectedModel),
}

impl View for Inspection {
    type V = InspectionModel;

    open spec fn view(&self) -> InspectionModel {
        match self {
            Inspection::Stat => InspectionModel::Stat,
            Inspection::Canonicalize => InspectionModel::Canonicalize,
            Inspection::StatCanonical(path) => InspectionModel::StatCanonical(path@),
            Inspection::Read(path, facts) => InspectionModel::Read(path@, *facts),
            Inspection::Done(outcome) => InspectionModel::Done(outcome@),
        }
    }
}

/// The reply to the first question.
pub enum StatReply {
    Found(FileFacts),
    Missing,
    Failed(String),
}

/// What the first reply stands for.
#[verifier::ext_equal]
pub enum StatModel {
    Found(FileFacts),
    Missing,
    Failed(Seq<char>),
}

impl View for StatReply {
    type V = StatModel;

    open spec fn view(&self) -> StatModel {
        match self {
            StatReply::Found(facts) => StatModel::Found(*facts),
            StatReply::Missing => StatModel::Missing,
            StatReply::Failed(reason) => StatModel::Failed(reason@),
        }
    }
}

/// A reply of the file system.
pub enum Reply {
    Stat(StatReply),
    Canonical(Result<FilePath, String>),
    CanonicalStat(Result<FileFacts, String>),
    Contents(Result<Vec<u8>, String>),
}

/// What a reply stands for.
#[verifier::ext_equal]
pub enum ReplyModel {
    Stat(StatModel),
    Canonical(Result<Seq<u8>, Seq<char>>),
    CanonicalStat(Result<FileFacts, Seq<char>>),
    Contents(Result<Seq<u8>, Seq<char>>),
}

impl View for Reply {
    type V = ReplyModel;

    open spec fn view(&self) -> ReplyModel {
        match self {
            Reply::Stat(reply) => ReplyModel::Stat(reply@),
            Reply::Canonical(Ok(path)) => ReplyModel::Canonical(Ok(path@)),
            Reply::Canonical(Err(reason)) => ReplyModel::Canonical(Err(reason@)),
            Reply::CanonicalStat(Ok(facts)) => ReplyModel::CanonicalStat(Ok(*facts)),
            Reply::CanonicalStat(Err(reason)) => ReplyModel::CanonicalStat(Err(reason@)),
            Reply::Contents(Ok(contents)) => ReplyModel::Contents(Ok(contents@)),
            Reply::Contents(Err(reason)) => ReplyModel::Contents(Err(reason@)),
        }
    }
}

/// The error of a question about a candidate that could not be answered.
pub open spec fn candidate_error(
    action: Seq<char>,
    path: Seq<u8>,
    reason: Seq<char>,
) -> InspectedModel {
    InspectedModel::Failed(
        ErrorModel::ProfileParse(
            "failed to "@ + action + " command candidate '"@ + paths::shown(path) + "': "@
                + reason,
        ),
    )
}

fn candidate_failure(action: &str, path: &FilePath, reason: &str) -> (r: Inspected)
    ensures
        r@ == candidate_error(action@, path@, reason@),
{
    Inspected::Failed(
        NonoError::ProfileParse(
            text::cat6(
                "failed to ",
                action,
                " command candidate '",
                path.display().as_str(),
                "': ",
                reason,
            ),
        ),
    )
}

/// What the contents of the file at `path` make of it.
pub open spec fn read_outcome(
    path: Seq<u8>,
    facts: FileFacts,
    contents: Seq<u8>,
) -> InspectedModel {
    match executable::shape_of(path, contents) {
        Err(error) => InspectedModel::Failed(error),
        Ok(shape) => InspectedModel::Match(
            MatchModel {
                canonical_path: path,
                dev: facts.dev,
                ino: facts.ino,
                size: facts.size,
                mtime_nanos: facts.mtime * 1_000_000_000 + facts.mtime_nsec,
                sha256: executable::hex(executable::sha256(contents)),
                shape,
            },
        ),
    }
}

/// The state after a reply. A reply to another question changes nothing.
pub open spec fn inspected_next(
    candidate: Seq<u8>,
    state: InspectionModel,
    reply: ReplyModel,
) -> InspectionModel {
    match (state, reply) {
        (InspectionModel::Stat, ReplyModel::Stat(StatModel::Missing)) => InspectionModel::Done(
            InspectedModel::Nothing,
        ),
        (
            InspectionModel::Stat,
            ReplyModel::Stat(StatModel::Failed(reason)),
        ) => InspectionModel::Done(InspectedModel::Failed(ErrorModel::ProfileParse(reason))),
        (InspectionModel::Stat, ReplyModel::Stat(StatModel::Found(facts))) => if executable_file(
            facts,
        ) {
            InspectionModel::Canonicalize
        } else {
            InspectionModel::Done(InspectedModel::Nothing)
        },
        (
            InspectionModel::Canonicalize,
            ReplyModel::Canonical(Err(reason)),
        ) => InspectionModel::Done(candidate_error("canonicalize"@, candidate, reason)),
        (
            InspectionModel::Canonicalize,
            ReplyModel::Canonical(Ok(path)),
        ) => InspectionModel::StatCanonical(path),
        (
            InspectionModel::StatCanonical(path),
            ReplyModel::CanonicalStat(Err(reason)),
        ) => InspectionModel::Done(candidate_error("stat"@, path, reason)),
        (
            InspectionModel::StatCanonical(path),
            ReplyModel::CanonicalStat(Ok(facts)),
        ) => InspectionModel::Read(path, facts),
        (
            InspectionModel::Read(path, facts),
            ReplyModel::Contents(Err(reason)),
        ) => InspectionModel::Done(candidate_error("hash"@, path, reason)),
        (
            InspectionModel::Read(path, facts),
            ReplyModel::Contents(Ok(contents)),
        ) => InspectionModel::Done(read_outcome(path, facts, contents)),
        _ => state,
    }
}

/// What inspecting a candidate comes to, given every reply.
pub open spec fn candidate_outcome(
    candidate: Seq<u8>,
    stat: StatModel,
    canonical: Result<Seq<u8>, Seq<char>>,
    facts: Result<FileFacts, Seq<char>>,
    contents: Result<Seq<u8>, Seq<char>>,
) -> InspectedModel {
    match stat {
        StatModel::Missing => InspectedModel::Nothing,
        StatModel::Failed(reason) => InspectedModel::Failed(ErrorModel::ProfileParse(reason)),
        StatModel::Found(found) => if !executable_file(found) {
            InspectedModel::Nothing
        } else {
            match canonical {
                Err(reason) => candidate_error("canonicalize"@, candidate, reason),
                Ok(path) => match facts {
                    Err(reason) => candidate_error("stat"@, path, reason),
                    Ok(facts) => match contents {
                        Err(reason) => candidate_error("hash"@, path, reason),
                        Ok(contents) => read_outcome(path, facts, contents),
                    },
                },
            }
        },
    }
}

/// Four steps settle every inspection, and an early end is kept.
pub proof fn law_inspection_settles(
    candidate: Seq<u8>,
    stat: StatModel,
    canonical: Result<Seq<u8>, Seq<char>>,
    facts: Result<FileFacts, Seq<char>>,
    contents: Result<Seq<u8>, Seq<char>>,
)
    ensures
        ({
            let s1 = inspected_next(candidate, InspectionModel::Stat, ReplyModel::Stat(stat));
            let s2 = inspected_next(candidate, s1, ReplyModel::Canonical(canonical));
            let s3 = inspected_next(candidate, s2, ReplyModel::CanonicalStat(facts));
            let s4 = inspected_next(candidate, s3, ReplyModel::Contents(contents));
            s4 == InspectionModel::Done(
                candidate_outcome(candidate, stat, canonical, facts, contents),
            )
        }),
{
}

fn settle_contents(path: FilePath, facts: FileFacts, contents: &[u8]) -> (r: Inspected)
    ensures
        r@ == read_outcome(path@, facts, contents@),
{
    let sha256 = executable::sha256_hex(contents);
    match executable::classify_executable_shape(&path, contents) {
        Err(error) => Inspected::Failed(error),
        Ok(shape) => Inspected::Match(
            CommandMatch {
                canonical_path: path,
                dev: facts.dev,
                ino: facts.ino,
                size: facts.size,
                mtime_nanos: nanoseconds(facts.mtime, facts.mtime_nsec),
                sha256,
                shape,
            },
        ),
    }
}

/// Takes the inspection of a candidate one step further.
pub fn candidate_command_match(candidate: &FilePath, state: Inspection, reply: Reply) -> (r:
    Inspection)
    ensures
        r@ == inspected_next(candidate@, state@, reply@),
{
    match state {
        Inspection::Stat => match reply {
            Reply::Stat(StatReply::Missing) => Inspection::Done(Inspected::Nothing),
            Reply::Stat(StatReply::Failed(reason)) => Inspection::Done(
                Inspected::Failed(NonoError::ProfileParse(reason)),
            ),
            Reply::Stat(StatReply::Found(facts)) => if is_executable_file(&facts) {
                Inspection::Canonicalize
            } else {
                Inspection::Done(Inspected::Nothing)
            },
            _ => Inspection::Stat,
        },
        Inspection::Canonicalize => match reply {
            Reply::Canonical(Ok(path)) => Inspection::StatCanonical(path),
            Reply::Canonical(Err(reason)) => Inspection::Done(
                candidate_failure("canonicalize", candidate, reason.as_str()),
            ),
            _ => Inspection::Canonicalize,
        },
        Inspection::StatCanonical(path) => match reply {
            Reply::CanonicalStat(Ok(facts)) => Inspection::Read(path, facts),
            Reply::CanonicalStat(Err(reason)) => Inspection::Done(
                candidate_failure("stat", &path, reason.as_str()),
            ),
            _ => Inspection::StatCanonical(path),
        },
        Inspection::Read(path, facts) => match reply {
            Reply::Contents(Ok(contents)) => Inspection::Done(
                settle_contents(path, facts, contents.as_slice()),
            ),
            Reply::Contents(Err(reason)) => Inspection::Done(
                candidate_failure("hash", &path, reason.as_str()),
            ),
            _ => Inspection::Read(path, facts),
        },
        Inspection::Done(outcome) => Inspection::Done(outcome),
    }
}

} // verus!
