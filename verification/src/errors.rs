use vstd::prelude::*;

verus! {

/// The failure taxonomy of the library: input validation problems are
/// reported before any mutation, backend and terminal failures abort a run.
#[derive(Debug, PartialEq, Eq)]
pub enum Error {
    /// An input was rejected before any work started.
    InputValidation(String),
    /// The requested interval cannot hold the commits at minimum spacing.
    RangeTooSmall,
    /// The repository could not be opened or holds no commits.
    RepositoryAccess(String),
    /// A backend mutation (commit creation, reference update) failed mid-pass.
    BackendOperation(String),
    /// Raw-mode setup or a read from the terminal failed.
    TerminalIo,
}

pub type Result<T> = core::result::Result<T, Error>;

} // verus!
