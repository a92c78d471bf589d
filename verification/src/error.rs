//! Errors of the library.
use vstd::prelude::*;

use crate::paths;
use crate::paths::FilePath;
use crate::text;

verus! {

/// Why an operation was refused or failed.
#[derive(Debug, PartialEq, Eq)]
pub enum NonoError {
    /// A profile is malformed or cannot be resolved.
    ProfileParse(String),
    /// Configuration flags contradict each other or are malformed.
    ConfigParse(String),
    /// The sandbox could not be set up.
    SandboxInit(String),
    /// A step of a supervised session failed.
    Setup(String),
    /// The path should name a file.
    ExpectedFile(FilePath),
    /// The path should name a directory.
    ExpectedDirectory(FilePath),
    /// The path could not be made canonical.
    PathCanonicalization { path: FilePath, source: String },
    /// The path could not be read.
    ConfigRead { path: FilePath, source: String },
    /// A command could not be executed.
    CommandExecution(String),
}

/// What an error says.
#[verifier::ext_equal]
pub enum ErrorModel {
    ProfileParse(Seq<char>),
    ConfigParse(Seq<char>),
    SandboxInit(Seq<char>),
    Setup(Seq<char>),
    ExpectedFile(Seq<u8>),
    ExpectedDirectory(Seq<u8>),
    PathCanonicalization { path: Seq<u8>, source: Seq<char> },
    ConfigRead { path: Seq<u8>, source: Seq<char> },
    CommandExecution(Seq<char>),
}

impl View for NonoError {
    type V = ErrorModel;

    open spec fn view(&self) -> ErrorModel {
        match self {
            NonoError::ProfileParse(message) => ErrorModel::ProfileParse(message@),
            NonoError::ConfigParse(message) => ErrorModel::ConfigParse(message@),
            NonoError::SandboxInit(message) => ErrorModel::SandboxInit(message@),
            NonoError::Setup(message) => ErrorModel::Setup(message@),
            NonoError::ExpectedFile(path) => ErrorModel::ExpectedFile(path@),
            NonoError::ExpectedDirectory(path) => ErrorModel::ExpectedDirectory(path@),
            NonoError::PathCanonicalization { path, source } => ErrorModel::PathCanonicalization {
                path: path@,
                source: source@,
            },
            NonoError::ConfigRead { path, source } => ErrorModel::ConfigRead {
                path: path@,
                source: source@,
            },
            NonoError::CommandExecution(source) => ErrorModel::CommandExecution(source@),
        }
    }
}

impl Clone for NonoError {
    fn clone(&self) -> (r: Self)
        ensures
            r@ == self@,
    {
        match self {
            NonoError::ProfileParse(message) => NonoError::ProfileParse(message.clone()),
            NonoError::ConfigParse(message) => NonoError::ConfigParse(message.clone()),
            NonoError::SandboxInit(message) => NonoError::SandboxInit(message.clone()),
            NonoError::Setup(message) => NonoError::Setup(message.clone()),
            NonoError::ExpectedFile(path) => NonoError::ExpectedFile(path.clone()),
            NonoError::ExpectedDirectory(path) => NonoError::ExpectedDirectory(path.clone()),
            NonoError::PathCanonicalization { path, source } => NonoError::PathCanonicalization {
                path: path.clone(),
                source: source.clone(),
            },
            NonoError::ConfigRead { path, source } => NonoError::ConfigRead {
                path: path.clone(),
                source: source.clone(),
            },
            NonoError::CommandExecution(source) => NonoError::CommandExecution(source.clone()),
        }
    }
}

/// An error as one line of text.
pub open spec fn error_line(error: ErrorModel) -> Seq<char> {
    match error {
        ErrorModel::ProfileParse(message) => "Profile parse error: "@ + message,
        ErrorModel::ConfigParse(message) => "Configuration parse error: "@ + message,
        ErrorModel::SandboxInit(message) => "Sandbox initialization failed: "@ + message,
        ErrorModel::Setup(message) => "Setup error: "@ + message,
        ErrorModel::ExpectedFile(path) => "Expected a file: "@ + paths::shown(path),
        ErrorModel::ExpectedDirectory(path) => "Expected a directory: "@ + paths::shown(path),
        ErrorModel::PathCanonicalization { path, source } => "Failed to canonicalize path "@
            + paths::shown(path) + ": "@ + source,
        ErrorModel::ConfigRead { path, source } => "Failed to read "@ + paths::shown(path) + ": "@
            + source,
        ErrorModel::CommandExecution(source) => "Command execution failed: "@ + source,
    }
}

impl NonoError {
    /// The error as one line of text.
    pub fn message(&self) -> (r: String)
        ensures
            r@ == error_line(self@),
    {
        match self {
            NonoError::ProfileParse(message) => text::cat2(
                "Profile parse error: ",
                message.as_str(),
            ),
            NonoError::ConfigParse(message) => text::cat2(
                "Configuration parse error: ",
                message.as_str(),
            ),
            NonoError::SandboxInit(message) => text::cat2(
                "Sandbox initialization failed: ",
                message.as_str(),
            ),
            NonoError::Setup(message) => text::cat2("Setup error: ", message.as_str()),
            NonoError::ExpectedFile(path) => text::cat2(
                "Expected a file: ",
                path.display().as_str(),
            ),
            NonoError::ExpectedDirectory(path) => text::cat2(
                "Expected a directory: ",
                path.display().as_str(),
            ),
            NonoError::PathCanonicalization { path, source } => text::cat4(
                "Failed to canonicalize path ",
                path.display().as_str(),
                ": ",
                source.as_str(),
            ),
            NonoError::ConfigRead { path, source } => text::cat4(
                "Failed to read ",
                path.display().as_str(),
                ": ",
                source.as_str(),
            ),
            NonoError::CommandExecution(source) => text::cat2(
                "Command execution failed: ",
                source.as_str(),
            ),
        }
    }
}

/// A result with its error taken by what it says.
pub open spec fn result_view<A>(result: Result<A, NonoError>) -> Result<A, ErrorModel> {
    match result {
        Ok(value) => Ok(value),
        Err(error) => Err(error@),
    }
}

/// A result with its value and error taken by what they stand for.
pub open spec fn outcome<A: View>(result: Result<A, NonoError>) -> Result<A::V, ErrorModel> {
    match result {
        Ok(value) => Ok(value@),
        Err(error) => Err(error@),
    }
}

/// An error says what failed, and then what is wrong.
pub proof fn law_error_lines(message: Seq<char>, path: Seq<u8>, source: Seq<char>)
    ensures
        error_line(ErrorModel::ProfileParse(message)) == "Profile parse error: "@ + message,
        error_line(ErrorModel::ConfigParse(message)) == "Configuration parse error: "@ + message,
        error_line(ErrorModel::SandboxInit(message)) == "Sandbox initialization failed: "@
            + message,
        error_line(ErrorModel::Setup(message)) == "Setup error: "@ + message,
        error_line(ErrorModel::CommandExecution(message)) == "Command execution failed: "@
            + message,
        error_line(ErrorModel::ExpectedFile(path)) == "Expected a file: "@ + paths::shown(path),
        error_line(ErrorModel::ExpectedDirectory(path)) == "Expected a directory: "@
            + paths::shown(path),
        error_line(ErrorModel::PathCanonicalization { path, source })
            == "Failed to canonicalize path "@ + paths::shown(path) + ": "@ + source,
        error_line(ErrorModel::ConfigRead { path, source }) == "Failed to read "@ + paths::shown(
            path,
        ) + ": "@ + source,
{
}

} // verus!
