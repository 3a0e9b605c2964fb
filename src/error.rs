use vstd::prelude::*;

verus! {

/// The file-system step whose failure an I/O error reports.
#[derive(Clone, Copy, Debug, PartialEq, Eq, Structural)]
pub enum IoStep {
    CreateLibrary,
    ReadLibrary,
    SaveFile,
    ReadFile,
    DeleteFile,
    Rename,
    Export,
}

/// The three kinds of failure of a library operation.
#[derive(Clone, Copy, Debug, PartialEq, Eq, Structural)]
pub enum ErrorKind {
    NotFound,
    AlreadyExists,
    Io,
}

/// A failed library operation: the file it needed is absent, the name it
/// would take is occupied, or the file system refused a step (with the
/// system's own description of the cause).
#[derive(Clone, Debug)]
pub enum LibraryError {
    NotFound(String),
    AlreadyExists(String),
    Io(IoStep, String),
}

/// The words that open the message of a failed step.
pub open spec fn step_prefix(step: IoStep) -> Seq<char> {
    match step {
        IoStep::CreateLibrary => "Failed to create library: "@,
        IoStep::ReadLibrary => "Failed to read library: "@,
        IoStep::SaveFile => "Failed to save file: "@,
        IoStep::ReadFile => "Failed to read file: "@,
        IoStep::DeleteFile => "Failed to delete file: "@,
        IoStep::Rename => "Failed to rename: "@,
        IoStep::Export => "Failed to export: "@,
    }
}

/// The message shown to the user for an error.
pub open spec fn message_of(e: LibraryError) -> Seq<char> {
    match e {
        LibraryError::NotFound(name) => "File not found: "@ + name@,
        LibraryError::AlreadyExists(name) => "File already exists: "@ + name@,
        LibraryError::Io(step, cause) => step_prefix(step) + cause@,
    }
}

/// The kind of an error.
pub open spec fn kind_of(e: LibraryError) -> ErrorKind {
    match e {
        LibraryError::NotFound(_) => ErrorKind::NotFound,
        LibraryError::AlreadyExists(_) => ErrorKind::AlreadyExists,
        LibraryError::Io(_, _) => ErrorKind::Io,
    }
}

/// The kind of failure of an outcome, `None` on success.
pub open spec fn failure_of<T>(r: Result<T, LibraryError>) -> Option<ErrorKind> {
    match r {
        Ok(_) => None,
        Err(e) => Some(kind_of(e)),
    }
}

fn step_prefix_text(step: IoStep) -> (r: String)
    ensures
        r@ == step_prefix(step),
{
    match step {
        IoStep::CreateLibrary => String::from_str("Failed to create library: "),
        IoStep::ReadLibrary => String::from_str("Failed to read library: "),
        IoStep::SaveFile => String::from_str("Failed to save file: "),
        IoStep::ReadFile => String::from_str("Failed to read file: "),
        IoStep::DeleteFile => String::from_str("Failed to delete file: "),
        IoStep::Rename => String::from_str("Failed to rename: "),
        IoStep::Export => String::from_str("Failed to export: "),
    }
}

impl LibraryError {
    /// The kind of this error.
    pub fn kind(&self) -> (r: ErrorKind)
        ensures
            r == kind_of(*self),
    {
        match self {
            LibraryError::NotFound(_) => ErrorKind::NotFound,
            LibraryError::AlreadyExists(_) => ErrorKind::AlreadyExists,
            LibraryError::Io(_, _) => ErrorKind::Io,
        }
    }

    /// The message shown to the user: what failed and on which name, or
    /// which step failed and why.
    pub fn message(&self) -> (r: String)
        ensures
            r@ == message_of(*self),
    {
        match self {
            LibraryError::NotFound(name) => String::from_str("File not found: ").concat(
                name.as_str(),
            ),
            LibraryError::AlreadyExists(name) => String::from_str("File already exists: ").concat(
                name.as_str(),
            ),
            LibraryError::Io(step, cause) => step_prefix_text(*step).concat(cause.as_str()),
        }
    }
}

} // verus!
