use vstd::prelude::*;
use vstd::string::*;

verus! {

/// The three families of failure that a session operation can report.
#[derive(Debug, Clone, Copy, PartialEq, Eq, Structural)]
pub enum ErrorKind {
    /// A pseudo-terminal could not be allocated, the command could not be
    /// launched, or a handle of the new session could not be acquired.
    Resource,
    /// The operation named an id that has no live session.
    NotFound,
    /// Reading from or writing to a live session failed.
    Io,
}

/// Why a session operation failed. Each variant but `NotFound` carries the
/// cause as the operating system worded it; `NotFound` carries the id.
#[derive(Debug, Clone)]
pub enum PtyError {
    NotFound(String),
    OpenPty(String),
    Spawn(String),
    CloneReader(String),
    TakeWriter(String),
    Write(String),
    Flush(String),
    Resize(String),
    Kill(String),
}

impl PtyError {
    /// The family this error belongs to.
    pub open spec fn spec_kind(&self) -> ErrorKind {
        match self {
            PtyError::NotFound(_) => ErrorKind::NotFound,
            PtyError::OpenPty(_) => ErrorKind::Resource,
            PtyError::Spawn(_) => ErrorKind::Resource,
            PtyError::CloneReader(_) => ErrorKind::Resource,
            PtyError::TakeWriter(_) => ErrorKind::Resource,
            PtyError::Write(_) => ErrorKind::Io,
            PtyError::Flush(_) => ErrorKind::Io,
            PtyError::Resize(_) => ErrorKind::Io,
            PtyError::Kill(_) => ErrorKind::Io,
        }
    }

    /// Whether this is the report that `id` has no live session.
    pub open spec fn names_missing(&self, id: Seq<char>) -> bool {
        self matches PtyError::NotFound(missing) && missing@ == id
    }

    /// The failure string, as the interface shows it.
    pub open spec fn text(&self) -> Seq<char> {
        match self {
            PtyError::NotFound(id) => "Process "@ + id@ + " not found"@,
            PtyError::OpenPty(cause) => "Failed to open PTY: "@ + cause@,
            PtyError::Spawn(cause) => "Failed to spawn process: "@ + cause@,
            PtyError::CloneReader(cause) => "Failed to clone reader: "@ + cause@,
            PtyError::TakeWriter(cause) => "Failed to take writer: "@ + cause@,
            PtyError::Write(cause) => "Failed to write to process: "@ + cause@,
            PtyError::Flush(cause) => "Failed to flush: "@ + cause@,
            PtyError::Resize(cause) => "Failed to resize PTY: "@ + cause@,
            PtyError::Kill(cause) => "Failed to kill process: "@ + cause@,
        }
    }

    #[verifier::when_used_as_spec(spec_kind)]
    pub fn kind(&self) -> (kind: ErrorKind)
        ensures
            kind == self.spec_kind(),
    {
        match self {
            PtyError::NotFound(_) => ErrorKind::NotFound,
            PtyError::OpenPty(_) => ErrorKind::Resource,
            PtyError::Spawn(_) => ErrorKind::Resource,
            PtyError::CloneReader(_) => ErrorKind::Resource,
            PtyError::TakeWriter(_) => ErrorKind::Resource,
            PtyError::Write(_) => ErrorKind::Io,
            PtyError::Flush(_) => ErrorKind::Io,
            PtyError::Resize(_) => ErrorKind::Io,
            PtyError::Kill(_) => ErrorKind::Io,
        }
    }

    /// Renders the failure string.
    pub fn message(&self) -> (message: String)
        ensures
            message@ == self.text(),
    {
        match self {
            PtyError::NotFound(id) => {
                let mut message = "Process ".to_owned();
                message.append(id.as_str());
                message.append(" not found");
                message
            },
            PtyError::OpenPty(cause) => prefixed("Failed to open PTY: ", cause),
            PtyError::Spawn(cause) => prefixed("Failed to spawn process: ", cause),
            PtyError::CloneReader(cause) => prefixed("Failed to clone reader: ", cause),
            PtyError::TakeWriter(cause) => prefixed("Failed to take writer: ", cause),
            PtyError::Write(cause) => prefixed("Failed to write to process: ", cause),
            PtyError::Flush(cause) => prefixed("Failed to flush: ", cause),
            PtyError::Resize(cause) => prefixed("Failed to resize PTY: ", cause),
            PtyError::Kill(cause) => prefixed("Failed to kill process: ", cause),
        }
    }
}

/// `prefix` followed by `cause`.
fn prefixed(prefix: &str, cause: &String) -> (message: String)
    ensures
        message@ == prefix@ + cause@,
{
    let mut message = prefix.to_owned();
    message.append(cause.as_str());
    message
}

} // verus!
