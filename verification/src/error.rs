//! The errors that the library reports.

use vstd::prelude::*;

verus! {

/// What was wrong with the operator's arguments.
#[derive(Clone, Copy, Debug, PartialEq, Eq, Structural)]
pub enum UsageError {
    /// `init` was given no project name.
    MissingProjectName,
    /// A project was named, but no command for it.
    MissingCommand,
    /// The command for a project is not one of the known ones.
    UnknownCommand,
    /// Adding a change takes exactly one argument, the change type.
    MissingChangeType,
    /// Removing a change takes exactly one argument, the hash.
    MissingHashToRemove,
    /// Editing a change takes exactly one argument, the hash.
    MissingHashToEdit,
    /// Simulating takes exactly one argument, the direction.
    MissingDirection,
    /// Packaging takes exactly one argument, the artifact name.
    MissingPackageName,
    /// Running takes a timing and at least one project.
    MissingRunArguments,
    /// Running and packaging need a configuration file.
    MissingConfig,
    /// The timing is neither `pre` nor `post`.
    InvalidTiming,
    /// The change type is not a known one.
    InvalidChangeType,
    /// The direction is neither `up` nor `down`.
    InvalidDirection,
}

/// Why an operation did not go through.
#[derive(Clone, Copy, Debug, PartialEq, Eq, Structural)]
pub enum Error {
    /// Missing or invalid arguments.
    Usage(UsageError),
    /// No change matches the hash prefix.
    NotFound,
    /// The hash prefix matches two changes or more.
    AmbiguousMatch,
    /// The project directory, or the artifact, is already there.
    AlreadyExists,
}

impl UsageError {
    /// The message for the operator.
    pub open spec fn text(self) -> Seq<char> {
        match self {
            UsageError::MissingProjectName => "You must provide a project name"@,
            UsageError::MissingCommand => "You must provide at least one parameter"@,
            UsageError::UnknownCommand => "Unknown command"@,
            UsageError::MissingChangeType => "You must provide a change type"@,
            UsageError::MissingHashToRemove => "You must provide a hash to remove"@,
            UsageError::MissingHashToEdit => "You must provide a hash to edit"@,
            UsageError::MissingDirection => "You must provide an up or down parameter"@,
            UsageError::MissingPackageName => "You must provide a package file name"@,
            UsageError::MissingRunArguments
                => "You must provide a timing and at least one project to run"@,
            UsageError::MissingConfig
                => "You must provide a configuration file via the -c flag"@,
            UsageError::InvalidTiming => "Invalid timing value"@,
            UsageError::InvalidChangeType => "Invalid change type value"@,
            UsageError::InvalidDirection => "Invalid direction"@,
        }
    }

    /// The message for the operator.
    pub fn message(&self) -> (out: &'static str)
        ensures
            out@ == self.text(),
    {
        match self {
            UsageError::MissingProjectName => "You must provide a project name",
            UsageError::MissingCommand => "You must provide at least one parameter",
            UsageError::UnknownCommand => "Unknown command",
            UsageError::MissingChangeType => "You must provide a change type",
            UsageError::MissingHashToRemove => "You must provide a hash to remove",
            UsageError::MissingHashToEdit => "You must provide a hash to edit",
            UsageError::MissingDirection => "You must provide an up or down parameter",
            UsageError::MissingPackageName => "You must provide a package file name",
            UsageError::MissingRunArguments
                => "You must provide a timing and at least one project to run",
            UsageError::MissingConfig
                => "You must provide a configuration file via the -c flag",
            UsageError::InvalidTiming => "Invalid timing value",
            UsageError::InvalidChangeType => "Invalid change type value",
            UsageError::InvalidDirection => "Invalid direction",
        }
    }
}

impl Error {
    /// The message for the operator.
    pub open spec fn text(self) -> Seq<char> {
        match self {
            Error::Usage(usage) => usage.text(),
            Error::NotFound => "No change with that hash found"@,
            Error::AmbiguousMatch => "The hash provided matched more than one change - \
                please reduce the scope of your hash"@,
            Error::AlreadyExists => "That name already exists"@,
        }
    }

    /// The message for the operator.
    pub fn message(&self) -> (out: &'static str)
        ensures
            out@ == self.text(),
    {
        match self {
            Error::Usage(usage) => usage.message(),
            Error::NotFound => "No change with that hash found",
            Error::AmbiguousMatch => "The hash provided matched more than one change - \
                please reduce the scope of your hash",
            Error::AlreadyExists => "That name already exists",
        }
    }
}

} // verus!
