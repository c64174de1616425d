//! The outcomes that an operation of the store can fail with.
use vstd::prelude::*;

verus! {

/// Why an operation was refused. A refused operation changes nothing.
#[derive(Debug, Clone, Copy, PartialEq, Eq, Structural)]
pub enum StoreError {
    /// The user does not exist, or the token or password does not match.
    Unauthorized,
    /// A user, repository, branch or file that the operation names does not exist.
    NotFound,
    /// A name that the operation would create is taken.
    Conflict,
    /// The repository is archived and the operation would change it.
    Forbidden,
    /// A name is empty, is `.` or `..`, or holds a path separator or a null character.
    InvalidName,
}

} // verus!
